//! The animation store read by the display loop: every keyframe of every
//! page in one flat store of fixed capacity, pages addressed by ranges,
//! frames found by binary search.

use vstd::prelude::*;
use crate::frame::{FrameBytes, rows_to_bytes, frame_to_bytes};
use crate::frame::Frame;
use crate::animation::{Animation, Keyframe, Page, blank_rows, rows_at, changed_keyframes, lemma_keyframes_reconstruct_frames, lemma_changed_keyframes_increasing};

verus! {

/// Angle steps per revolution.
pub const ANGLE_STEPS: usize = 1024;

/// Most keyframes one page may hold.
pub const MAX_KEYFRAMES_PER_PAGE: usize = 512;

/// Most pages an animation may hold.
pub const MAX_PAGES: usize = 8;

/// Most keyframes all pages together may hold.
pub const MAX_TOTAL_KEYFRAMES: usize = 1024;

/// Why an animation was refused.
#[derive(Clone, Copy, Debug, PartialEq, Eq, Structural)]
pub enum PoolError {
    /// No page, or more than `MAX_PAGES` pages.
    PagesOutOfRange,
    /// A page holds more than `MAX_KEYFRAMES_PER_PAGE` keyframes.
    TooManyKeyframesInPage,
    /// The pages together hold more than `MAX_TOTAL_KEYFRAMES` keyframes.
    TotalKeyframesExceeded,
}

impl PoolError {
    /// The text reported for this error.
    pub fn message(&self) -> (text: &'static str)
        ensures
            text@ == self.spec_text(),
    {
        match self {
            PoolError::PagesOutOfRange => "pages out of range",
            PoolError::TooManyKeyframesInPage => "too many keyframes in page",
            PoolError::TotalKeyframesExceeded => "total keyframes exceeded",
        }
    }

    /// The text reported for this error.
    pub open spec fn spec_text(&self) -> Seq<char> {
        match self {
            PoolError::PagesOutOfRange => "pages out of range"@,
            PoolError::TooManyKeyframesInPage => "too many keyframes in page"@,
            PoolError::TotalKeyframesExceeded => "total keyframes exceeded"@,
        }
    }
}

/// The abstract state of a pool.
pub struct PoolModel {
    /// The flat keyframe store (`MAX_TOTAL_KEYFRAMES` slots).
    pub store: Seq<Keyframe>,
    /// For each of the `MAX_PAGES` page slots, its `[start, end)` range in the store.
    pub ranges: Seq<(u16, u16)>,
    /// The number of pages of the loaded animation.
    pub page_count: nat,
    /// The revolution counter.
    pub rev: u64,
    /// Whether an animation was ever loaded.
    pub loaded: bool,
    /// How many animations were loaded (wrapping).
    pub anim_count: u32,
}

impl PoolModel {
    /// The keyframes of page slot `j`.
    pub open spec fn page(self, j: int) -> Seq<Keyframe> {
        self.store.subrange(self.ranges[j].0 as int, self.ranges[j].1 as int)
    }

    /// The shape every pool keeps.
    pub open spec fn wf(self) -> bool {
        &&& self.store.len() == MAX_TOTAL_KEYFRAMES
        &&& self.ranges.len() == MAX_PAGES
        &&& self.page_count <= MAX_PAGES
        &&& forall|j: int|
            0 <= j < MAX_PAGES ==> #[trigger] self.ranges[j].0 <= self.ranges[j].1 <= MAX_TOTAL_KEYFRAMES
    }
}

/// The keyframe lists of the pages of an animation.
pub open spec fn animation_pages(anim: Animation) -> Seq<Seq<Keyframe>> {
    anim.pages@.map_values(|p: Page| p.keyframes@)
}

/// All keyframes of a list of pages, page after page.
pub open spec fn flatten(pages: Seq<Seq<Keyframe>>) -> Seq<Keyframe>
    decreases pages.len(),
{
    if pages.len() == 0 {
        Seq::empty()
    } else {
        flatten(pages.drop_last()) + pages.last()
    }
}

/// How many keyframes the pages before page `i` hold.
pub open spec fn keyframes_before(pages: Seq<Seq<Keyframe>>, i: int) -> int {
    flatten(pages.take(i)).len() as int
}

/// Whether page `i` is accepted once the pages before it were.
pub open spec fn page_fits(pages: Seq<Seq<Keyframe>>, i: int) -> bool {
    &&& pages[i].len() <= MAX_KEYFRAMES_PER_PAGE
    &&& keyframes_before(pages, i) + pages[i].len() <= MAX_TOTAL_KEYFRAMES
}

/// The index of the first page from `i` on that is refused, or the number
/// of pages when none is.
pub open spec fn first_refused_from(pages: Seq<Seq<Keyframe>>, i: int) -> int
    decreases pages.len() - i,
{
    if i >= pages.len() || i < 0 {
        pages.len() as int
    } else if page_fits(pages, i) {
        first_refused_from(pages, i + 1)
    } else {
        i
    }
}

/// The index of the first refused page, or the number of pages.
pub open spec fn first_refused(pages: Seq<Seq<Keyframe>>) -> int {
    first_refused_from(pages, 0)
}

/// The state after the first `k` pages were copied into the store and
/// given their ranges (page count, counters and flags untouched).
pub open spec fn copy_pages(old: PoolModel, pages: Seq<Seq<Keyframe>>, k: int) -> PoolModel {
    let written = flatten(pages.take(k));
    PoolModel {
        store: Seq::new(
            MAX_TOTAL_KEYFRAMES as nat,
            |p: int| if p < written.len() { written[p] } else { old.store[p] },
        ),
        ranges: Seq::new(
            MAX_PAGES as nat,
            |j: int|
                if j < k {
                    (keyframes_before(pages, j) as u16, keyframes_before(pages, j + 1) as u16)
                } else {
                    old.ranges[j]
                },
        ),
        ..old
    }
}

/// One more, wrapping at `u64::MAX`.
pub open spec fn next_rev(rev: u64) -> u64 {
    if rev == u64::MAX { 0 } else { (rev + 1) as u64 }
}

/// One more, wrapping at `u32::MAX`.
pub open spec fn next_count(n: u32) -> u32 {
    if n == u32::MAX { 0 } else { (n + 1) as u32 }
}

/// The state after a successful upload of `pages`.
pub open spec fn loaded_state(old: PoolModel, pages: Seq<Seq<Keyframe>>) -> PoolModel {
    PoolModel {
        page_count: pages.len(),
        loaded: true,
        rev: 0,
        anim_count: next_count(old.anim_count),
        ..copy_pages(old, pages, pages.len() as int)
    }
}

/// The outcome of uploading `pages` into a pool in state `old`: the result
/// and the state afterwards. Pages are copied in order; when a page is
/// refused, the pages before it have already been copied (without
/// changing the page count).
pub open spec fn upload_outcome(old: PoolModel, pages: Seq<Seq<Keyframe>>) -> (Result<(), PoolError>, PoolModel) {
    if pages.len() == 0 || pages.len() > MAX_PAGES {
        (Err(PoolError::PagesOutOfRange), old)
    } else {
        let k = first_refused(pages);
        if k < pages.len() {
            (
                Err(
                    if pages[k].len() > MAX_KEYFRAMES_PER_PAGE {
                        PoolError::TooManyKeyframesInPage
                    } else {
                        PoolError::TotalKeyframesExceeded
                    },
                ),
                copy_pages(old, pages, k),
            )
        } else {
            (Ok(()), loaded_state(old, pages))
        }
    }
}

/// Ticks never decrease along the list.
pub open spec fn ticks_sorted(keyframes: Seq<Keyframe>) -> bool {
    forall|i: int, j: int|
        0 <= i <= j < keyframes.len() ==> keyframes[i].angle_tick <= keyframes[j].angle_tick
}

/// The page slot used for revolution `rev` when `page_count` pages are
/// loaded: revolution `n` plays page `n % page_count`.
pub open spec fn page_for_rev(rev: u64, page_count: nat) -> int {
    rev as int % (page_count as int)
}

/// The blank frame, as bytes.
pub open spec fn blank_bytes() -> Seq<u8> {
    rows_to_bytes(blank_rows())
}

/// Whether a store slot holds a blank keyframe at tick 0.
pub open spec fn is_blank_keyframe(k: Keyframe) -> bool {
    k.angle_tick == 0 && k.frame@ == blank_rows()
}


proof fn lemma_flatten_take_step(pages: Seq<Seq<Keyframe>>, i: int)
    requires
        0 <= i < pages.len(),
    ensures
        flatten(pages.take(i + 1)) == flatten(pages.take(i)) + pages[i],
        keyframes_before(pages, i + 1) == keyframes_before(pages, i) + pages[i].len(),
{
    assert(pages.take(i + 1).drop_last() =~= pages.take(i));
    assert(pages.take(i + 1).last() == pages[i]);
}

proof fn lemma_flatten_take_prefix(pages: Seq<Seq<Keyframe>>, i: int, k: int)
    requires
        0 <= i <= k <= pages.len(),
    ensures
        keyframes_before(pages, i) <= keyframes_before(pages, k),
        flatten(pages.take(k)).subrange(0, keyframes_before(pages, i)) == flatten(pages.take(i)),
    decreases k - i,
{
    if i < k {
        lemma_flatten_take_prefix(pages, i, k - 1);
        lemma_flatten_take_step(pages, k - 1);
        let a = flatten(pages.take(k - 1));
        let b = flatten(pages.take(k));
        assert(b.subrange(0, a.len() as int) =~= a);
        assert(b.subrange(0, keyframes_before(pages, i)) =~= a.subrange(0, keyframes_before(pages, i)));
    } else {
        assert(flatten(pages.take(k)).subrange(0, keyframes_before(pages, i)) =~= flatten(pages.take(i)));
    }
}

proof fn lemma_first_refused_skip(pages: Seq<Seq<Keyframe>>, i: int, k: int)
    requires
        0 <= i <= k <= pages.len(),
        forall|j: int| i <= j < k ==> page_fits(pages, j),
    ensures
        first_refused_from(pages, i) == first_refused_from(pages, k),
    decreases k - i,
{
    if i < k {
        lemma_first_refused_skip(pages, i + 1, k);
    }
}

/// The pages of an accepted upload are the pages the pool then holds, in
/// order, and they are as many as the pages uploaded.
pub proof fn lemma_upload_holds_pages(old: PoolModel, pages: Seq<Seq<Keyframe>>, j: int)
    requires
        old.wf(),
        upload_outcome(old, pages).0 is Ok,
        0 <= j < pages.len(),
    ensures
        upload_outcome(old, pages).1.wf(),
        upload_outcome(old, pages).1.page_count == pages.len(),
        upload_outcome(old, pages).1.page(j) == pages[j],
{
    let n = pages.len() as int;
    let new = upload_outcome(old, pages).1;
    lemma_upload_wf(old, pages);
    lemma_flatten_take_step(pages, j);
    lemma_flatten_take_prefix(pages, j + 1, n);
    let all = flatten(pages.take(n));
    let lo = keyframes_before(pages, j);
    let hi = keyframes_before(pages, j + 1);
    lemma_fits_bounds(pages, n);
    assert(new.ranges[j] == (lo as u16, hi as u16));
    assert(all.subrange(0, hi) == flatten(pages.take(j)) + pages[j]);
    assert(hi <= all.len());
    assert forall|p: int| 0 <= p < pages[j].len() implies #[trigger] new.page(j)[p] == pages[j][p] by {
        assert(new.store[lo + p] == all[lo + p]);
        assert(all[lo + p] == all.subrange(0, hi)[lo + p]);
    }
    assert(new.page(j) =~= pages[j]);
}

proof fn lemma_fits_bounds(pages: Seq<Seq<Keyframe>>, k: int)
    requires
        0 <= k <= pages.len(),
        forall|j: int| 0 <= j < k ==> page_fits(pages, j),
    ensures
        forall|j: int| 0 <= j <= k ==> 0 <= #[trigger] keyframes_before(pages, j) <= MAX_TOTAL_KEYFRAMES,
    decreases k,
{
    if k > 0 {
        lemma_fits_bounds(pages, k - 1);
        lemma_flatten_take_step(pages, k - 1);
        assert(page_fits(pages, k - 1));
        assert forall|j: int| 0 <= j <= k implies 0 <= #[trigger] keyframes_before(pages, j) <= MAX_TOTAL_KEYFRAMES by {
            if j < k {
                assert(0 <= keyframes_before(pages, j) <= MAX_TOTAL_KEYFRAMES);
            }
        }
    } else {
        assert(pages.take(0) =~= Seq::<Seq<Keyframe>>::empty());
    }
}

proof fn lemma_copy_pages_wf(old: PoolModel, pages: Seq<Seq<Keyframe>>, k: int)
    requires
        old.wf(),
        0 <= k <= pages.len(),
        k <= MAX_PAGES,
        forall|j: int| 0 <= j < k ==> page_fits(pages, j),
    ensures
        copy_pages(old, pages, k).wf(),
{
    lemma_fits_bounds(pages, k);
    assert forall|j: int| 0 <= j < k implies #[trigger] keyframes_before(pages, j) <= keyframes_before(pages, j + 1) by {
        lemma_flatten_take_step(pages, j);
    }
}

proof fn lemma_upload_wf(old: PoolModel, pages: Seq<Seq<Keyframe>>)
    requires
        old.wf(),
    ensures
        upload_outcome(old, pages).1.wf(),
        upload_outcome(old, pages).0 is Ok ==> first_refused(pages) == pages.len()
            && forall|j: int| 0 <= j < pages.len() ==> page_fits(pages, j),
{
    if !(pages.len() == 0 || pages.len() > MAX_PAGES) {
        let k = first_refused(pages);
        lemma_first_refused_fits(pages, 0);
        lemma_copy_pages_wf(old, pages, k);
    }
}

proof fn lemma_first_refused_fits(pages: Seq<Seq<Keyframe>>, i: int)
    requires
        0 <= i <= pages.len(),
    ensures
        i <= first_refused_from(pages, i) <= pages.len(),
        forall|j: int| i <= j < first_refused_from(pages, i) ==> page_fits(pages, j),
    decreases pages.len() - i,
{
    if i < pages.len() && page_fits(pages, i) {
        lemma_first_refused_fits(pages, i + 1);
    }
}

/// The rows a pool in state `m` shows for revolution `rev` at angle
/// `angle`: blank with no page loaded, else those of the revolution's page.
pub open spec fn shown_rows(m: PoolModel, rev: u64, angle: int) -> Seq<u16> {
    if m.page_count == 0 {
        blank_rows()
    } else {
        rows_at(m.page(page_for_rev(rev, m.page_count)), angle)
    }
}

proof fn lemma_rows_at_partition(s: Seq<Keyframe>, angle: int, p: int)
    requires
        0 <= p <= s.len(),
        forall|k: int| 0 <= k < p ==> #[trigger] s[k].angle_tick <= angle,
        forall|k: int| p <= k < s.len() ==> #[trigger] s[k].angle_tick > angle,
    ensures
        rows_at(s, angle) == (if p == 0 { blank_rows() } else { s[p - 1].frame@ }),
    decreases s.len(),
{
    if s.len() > 0 {
        if p < s.len() {
            let t = s.drop_last();
            assert forall|k: int| 0 <= k < p implies #[trigger] t[k].angle_tick <= angle by {
                assert(t[k] == s[k]);
            }
            assert forall|k: int| p <= k < t.len() implies #[trigger] t[k].angle_tick > angle by {
                assert(t[k] == s[k]);
            }
            lemma_rows_at_partition(t, angle, p);
            if p > 0 {
                assert(t[p - 1] == s[p - 1]);
            }
        }
    }
}

/// Read after write: once an upload of `pages` is accepted, the pool shows,
/// for revolution `rev` at any angle, what page `rev % pages.len()` of the
/// upload shows there.
pub proof fn lemma_read_after_upload(old: PoolModel, pages: Seq<Seq<Keyframe>>, rev: u64, angle: int)
    requires
        old.wf(),
        upload_outcome(old, pages).0 is Ok,
    ensures
        shown_rows(upload_outcome(old, pages).1, rev, angle) == rows_at(
            pages[page_for_rev(rev, pages.len())],
            angle,
        ),
{
    let j = page_for_rev(rev, pages.len());
    lemma_upload_holds_pages(old, pages, j);
}

/// A refused upload changes neither the page count, nor the revolution
/// counter, nor the loaded flag, nor the upload counter.
pub proof fn lemma_refused_upload_keeps_counters(old: PoolModel, pages: Seq<Seq<Keyframe>>)
    requires
        upload_outcome(old, pages).0 is Err,
    ensures
        upload_outcome(old, pages).1.page_count == old.page_count,
        upload_outcome(old, pages).1.rev == old.rev,
        upload_outcome(old, pages).1.loaded == old.loaded,
        upload_outcome(old, pages).1.anim_count == old.anim_count,
{
}

/// What is baked is what is shown: once the pages recorded from
/// revolutions of at most 65536 frames are accepted, the pool shows for
/// revolution `rev`, at every recorded angle, exactly the frame recorded
/// there in revolution `rev % revolutions.len()`; and those pages are
/// sorted, so `get_frame` returns it exactly.
pub proof fn lemma_baked_revolutions_shown(
    old: PoolModel,
    revolutions: Seq<Seq<Frame>>,
    rev: u64,
    angle: int,
)
    requires
        old.wf(),
        forall|i: int| 0 <= i < revolutions.len() ==> (#[trigger] revolutions[i]).len() <= 65536,
        upload_outcome(old, revolutions.map_values(|f: Seq<Frame>| changed_keyframes(f))).0 is Ok,
        0 <= angle < revolutions[page_for_rev(rev, revolutions.len())].len(),
    ensures
        ({
            let pages = revolutions.map_values(|f: Seq<Frame>| changed_keyframes(f));
            let new = upload_outcome(old, pages).1;
            &&& shown_rows(new, rev, angle) == revolutions[page_for_rev(rev, revolutions.len())][angle]@
            &&& ticks_sorted(new.page(page_for_rev(rev, new.page_count)))
        }),
{
    let pages = revolutions.map_values(|f: Seq<Frame>| changed_keyframes(f));
    let j = page_for_rev(rev, revolutions.len());
    lemma_read_after_upload(old, pages, rev, angle);
    lemma_upload_holds_pages(old, pages, j);
    lemma_keyframes_reconstruct_frames(revolutions[j], angle);
    lemma_changed_keyframes_increasing(revolutions[j]);
}

/// Whether `bytes` is a frame `get_frame` may return for revolution `rev`
/// at angle `angle` in a pool in state `m`: exactly the shown frame when
/// the page is sorted, and otherwise blank or one of the page's frames.
pub open spec fn frame_candidate(m: PoolModel, rev: u64, angle: int, bytes: Seq<u8>) -> bool {
    &&& m.page_count == 0 ==> bytes == blank_bytes()
    &&& m.page_count > 0 && ticks_sorted(m.page(page_for_rev(rev, m.page_count)))
        ==> bytes == rows_to_bytes(shown_rows(m, rev, angle))
    &&& m.page_count > 0 ==> bytes == blank_bytes() || exists|k: int|
        0 <= k < m.page(page_for_rev(rev, m.page_count)).len() && bytes == rows_to_bytes(
            #[trigger] m.page(page_for_rev(rev, m.page_count))[k].frame@,
        )
}

/// The limits on an upload: an animation of 1 to 8 pages, each holding at
/// most 512 keyframes and all together at most 1024, is accepted and the
/// pool then holds exactly its pages; one whose pages each hold at most
/// 512 keyframes but together more than 1024 is refused as exceeding the
/// total.
pub proof fn lemma_upload_limits(old: PoolModel, pages: Seq<Seq<Keyframe>>)
    requires
        old.wf(),
        1 <= pages.len() <= 8,
        forall|i: int| 0 <= i < pages.len() ==> (#[trigger] pages[i]).len() <= 512,
    ensures
        flatten(pages).len() <= 1024 ==> {
            &&& upload_outcome(old, pages).0 is Ok
            &&& upload_outcome(old, pages).1.page_count == pages.len()
            &&& forall|j: int| 0 <= j < pages.len() ==> #[trigger] upload_outcome(old, pages).1.page(j)
                == pages[j]
        },
        flatten(pages).len() > 1024 ==> upload_outcome(old, pages).0 == Err::<(), PoolError>(
            PoolError::TotalKeyframesExceeded,
        ),
{
    let n = pages.len() as int;
    assert(pages.take(n) =~= pages);
    if flatten(pages).len() <= 1024 {
        assert forall|i: int| 0 <= i < n implies page_fits(pages, i) by {
            lemma_flatten_take_step(pages, i);
            lemma_flatten_take_prefix(pages, i + 1, n);
        }
        lemma_first_refused_skip(pages, 0, n);
        assert forall|j: int| 0 <= j < n implies #[trigger] upload_outcome(old, pages).1.page(j)
            == pages[j] by {
            lemma_upload_holds_pages(old, pages, j);
        }
    } else {
        lemma_first_refused_fits(pages, 0);
        let k = first_refused(pages);
        if k == n {
            lemma_flatten_take_step(pages, n - 1);
            assert(page_fits(pages, n - 1));
            assert(false);
        }
        assert(!page_fits(pages, k)) by {
            lemma_first_refused_skip(pages, 0, k);
            if page_fits(pages, k) {
                assert(first_refused_from(pages, k) == first_refused_from(pages, k + 1));
                lemma_first_refused_fits(pages, k + 1);
            }
        }
    }
}

/// Flat keyframe store holding a multi-page animation.
pub struct AnimationPool {
    store: Vec<Keyframe>,
    page_ranges: [(u16, u16); 8],
    page_count: usize,
    rev_counter: u64,
    loaded: bool,
    anim_count: u32,
}

impl View for AnimationPool {
    type V = PoolModel;

    closed spec fn view(&self) -> PoolModel {
        PoolModel {
            store: self.store@,
            ranges: self.page_ranges@,
            page_count: self.page_count as nat,
            rev: self.rev_counter,
            loaded: self.loaded,
            anim_count: self.anim_count,
        }
    }
}

impl AnimationPool {
    /// Every pool keeps the shape `PoolModel::wf` describes.
    #[verifier::type_invariant]
    closed spec fn inv(self) -> bool {
        self@.wf()
    }

    /// An empty pool: no animation, all slots blank, counters at zero.
    pub fn new() -> (pool: Self)
        ensures
            pool@.wf(),
            pool@.page_count == 0,
            pool@.rev == 0,
            !pool@.loaded,
            pool@.anim_count == 0,
            forall|p: int| 0 <= p < MAX_TOTAL_KEYFRAMES ==> is_blank_keyframe(#[trigger] pool@.store[p]),
            forall|j: int| 0 <= j < MAX_PAGES ==> #[trigger] pool@.ranges[j] == (0u16, 0u16),
    {
        let mut store: Vec<Keyframe> = Vec::new();
        let mut i: usize = 0;
        while i < MAX_TOTAL_KEYFRAMES
            invariant
                0 <= i <= MAX_TOTAL_KEYFRAMES,
                store@.len() == i,
                forall|p: int| 0 <= p < i ==> is_blank_keyframe(#[trigger] store@[p]),
            decreases MAX_TOTAL_KEYFRAMES - i,
        {
            let blank = Keyframe { angle_tick: 0, frame: [0u16; 16] };
            assert(blank.frame@ =~= blank_rows());
            store.push(blank);
            i += 1;
        }
        let page_ranges: [(u16, u16); 8] = [(0u16, 0u16); 8];
        assert(page_ranges@ =~= Seq::new(MAX_PAGES as nat, |k: int| (0u16, 0u16)));
        AnimationPool { store, page_ranges, page_count: 0, rev_counter: 0, loaded: false, anim_count: 0 }
    }

    /// Replaces the animation. Pages are copied into the store one after
    /// the other; the first page that is too large, alone or together with
    /// the pages before it, stops the upload with an error (the pages
    /// before it stay copied, but the page count does not change). On
    /// success the pool shows the new pages, the revolution counter
    /// restarts at zero and the upload counter advances (wrapping).
    #[verifier::spinoff_prover]
    #[verifier::rlimit(40)]
    pub fn set_animation(&mut self, anim: Animation) -> (res: Result<(), PoolError>)
        ensures
            res == upload_outcome(old(self)@, animation_pages(anim)).0,
            final(self)@ == upload_outcome(old(self)@, animation_pages(anim)).1,
            final(self)@.wf(),
            res is Ok ==> final(self)@.page_count == anim.pages@.len()
                && forall|j: int| 0 <= j < anim.pages@.len()
                    ==> #[trigger] final(self)@.page(j) == anim.pages@[j].keyframes@,
        no_unwind
    {
        proof {
            use_type_invariant(&*self);
            lemma_upload_wf(self@, animation_pages(anim));
        }
        let ghost old_model = self@;
        let ghost pages = animation_pages(anim);
        let page_count = anim.pages.len();
        if page_count == 0 || page_count > MAX_PAGES {
            return Err(PoolError::PagesOutOfRange);
        }
        let mut total: usize = 0;
        let mut pi: usize = 0;
        proof {
            assert(pages.take(0) =~= Seq::<Seq<Keyframe>>::empty());
            assert(copy_pages(old_model, pages, 0).store =~= old_model.store);
            assert(copy_pages(old_model, pages, 0).ranges =~= old_model.ranges);
        }
        while pi < page_count
            invariant
                old_model.wf(),
                self@.wf(),
                old_model == old(self)@,
                pages == animation_pages(anim),
                page_count == pages.len(),
                0 < page_count <= MAX_PAGES,
                0 <= pi <= page_count,
                self@ == copy_pages(old_model, pages, pi as int),
                total == keyframes_before(pages, pi as int),
                total <= MAX_TOTAL_KEYFRAMES,
                forall|j: int| 0 <= j < pi ==> page_fits(pages, j),
            decreases page_count - pi,
        {
            let kf_count = anim.pages[pi].keyframes.len();
            proof {
                lemma_first_refused_skip(pages, 0, pi as int);
                lemma_flatten_take_step(pages, pi as int);
                lemma_copy_pages_wf(old_model, pages, pi as int);
            }
            if kf_count > MAX_KEYFRAMES_PER_PAGE {
                assert(!page_fits(pages, pi as int));
                assert(first_refused_from(pages, pi as int) == pi);
                return Err(PoolError::TooManyKeyframesInPage);
            }
            if total + kf_count > MAX_TOTAL_KEYFRAMES {
                assert(!page_fits(pages, pi as int));
                assert(first_refused_from(pages, pi as int) == pi);
                return Err(PoolError::TotalKeyframesExceeded);
            }
            let ghost written = flatten(pages.take(pi as int));
            let mut ki: usize = 0;
            while ki < kf_count
                invariant
                    old_model.wf(),
                    self@.wf(),
                    pages == animation_pages(anim),
                    0 <= pi < page_count == pages.len(),
                    kf_count == pages[pi as int].len(),
                    total == written.len(),
                    total + kf_count <= MAX_TOTAL_KEYFRAMES,
                    0 <= ki <= kf_count,
                    self@.ranges == copy_pages(old_model, pages, pi as int).ranges,
                    self@.page_count == old_model.page_count,
                    self@.rev == old_model.rev,
                    self@.loaded == old_model.loaded,
                    self@.anim_count == old_model.anim_count,
                    self@.store.len() == MAX_TOTAL_KEYFRAMES,
                    forall|p: int| 0 <= p < MAX_TOTAL_KEYFRAMES ==> #[trigger] self@.store[p] == (if p < total {
                        written[p]
                    } else if p < total + ki {
                        pages[pi as int][p - total]
                    } else {
                        old_model.store[p]
                    }),
                decreases kf_count - ki,
            {
                let kf = anim.pages[pi].keyframes[ki];
                self.store[total + ki] = kf;
                ki += 1;
            }
            let range: (u16, u16) = (total as u16, (total + kf_count) as u16);
            proof {
                lemma_flatten_take_step(pages, pi as int);
                let updated = PoolModel { ranges: self@.ranges.update(pi as int, range), ..self@ };
                assert forall|j: int| 0 <= j < MAX_PAGES implies #[trigger] updated.ranges[j].0
                    <= updated.ranges[j].1 <= MAX_TOTAL_KEYFRAMES by {
                    if j != pi {
                        assert(updated.ranges[j] == self@.ranges[j]);
                    }
                }
                assert(updated.wf());
            }
            self.page_ranges[pi] = range;
            total += kf_count;
            pi += 1;
            proof {
                let next = copy_pages(old_model, pages, pi as int);
                assert(page_fits(pages, pi - 1));
                assert(self@.store =~= next.store);
                assert(self@.ranges =~= next.ranges);
            }
        }
        proof {
            lemma_first_refused_skip(pages, 0, page_count as int);
        }
        self.page_count = page_count;
        self.loaded = true;
        self.rev_counter = 0;
        let next_count: u32 = if self.anim_count == u32::MAX { 0 } else { self.anim_count + 1 };
        self.anim_count = next_count;
        proof {
            assert forall|j: int| 0 <= j < anim.pages@.len() implies #[trigger] self@.page(j)
                == anim.pages@[j].keyframes@ by {
                lemma_upload_holds_pages(old_model, pages, j);
            }
        }
        Ok(())
    }

    /// The frame, as bytes, for revolution `rev` at angle `angle_idx`:
    /// the page used is `rev % page_count`, and within it the last
    /// keyframe whose tick is at most the angle, found by binary search
    /// (blank when there is none or no page is loaded). Exact for pages
    /// whose ticks are sorted; for other pages it is blank or the frame of
    /// one of the page's keyframes.
    pub fn get_frame(&self, rev: u64, angle_idx: usize) -> (bytes: FrameBytes)
        ensures
            frame_candidate(self@, rev, angle_idx as int, bytes@),
    {
        proof {
            use_type_invariant(self);
        }
        let blank: FrameBytes = [0u8; 32];
        assert(blank@ =~= blank_bytes());
        let pc = self.page_count;
        if pc == 0 {
            return blank;
        }
        let page_idx = (rev % (pc as u64)) as usize;
        let (start, end) = self.page_ranges[page_idx];
        let count = end - start;
        let ghost page = self@.page(page_idx as int);
        let ghost sorted = ticks_sorted(page);
        if count == 0 {
            proof {
                lemma_rows_at_partition(page, angle_idx as int, 0);
            }
            return blank;
        }
        let start_u = start as usize;
        let count_u = count as usize;
        let mut lo: usize = 0;
        let mut hi: usize = count_u;
        while lo < hi
            invariant
                self@.wf(),
                page_idx < MAX_PAGES,
                start_u == self@.ranges[page_idx as int].0,
                start_u + count_u == self@.ranges[page_idx as int].1,
                page == self@.page(page_idx as int),
                page.len() == count_u,
                0 <= lo <= hi <= count_u,
                sorted == ticks_sorted(page),
                sorted ==> forall|k: int| 0 <= k < lo ==> #[trigger] page[k].angle_tick <= angle_idx,
                sorted ==> forall|k: int| hi <= k < count_u ==> #[trigger] page[k].angle_tick > angle_idx,
            decreases hi - lo,
        {
            let mid = lo + (hi - lo) / 2;
            assert(page[mid as int] == self@.store[start_u + mid]);
            if (self.store[start_u + mid].angle_tick as usize) <= angle_idx {
                lo = mid + 1;
            } else {
                hi = mid;
            }
        }
        proof {
            if sorted {
                lemma_rows_at_partition(page, angle_idx as int, lo as int);
            }
        }
        if lo == 0 {
            return blank;
        }
        assert(page[lo - 1] == self@.store[start_u + lo - 1]);
        frame_to_bytes(&self.store[start_u + lo - 1].frame)
    }

    /// Advances the revolution counter by one, wrapping.
    pub fn increment_rev(&mut self)
        ensures
            final(self)@.wf(),
            final(self)@ == (PoolModel { rev: next_rev(old(self)@.rev), ..old(self)@ }),
    {
        proof {
            use_type_invariant(&*self);
        }
        self.rev_counter = self.rev_counter.wrapping_add(1);
    }

    /// The revolution counter.
    pub fn rev_count(&self) -> (rev: u64)
        ensures
            rev == self@.rev,
    {
        self.rev_counter
    }

    /// Whether an animation has been loaded.
    pub fn has_animation(&self) -> (loaded: bool)
        ensures
            loaded == self@.loaded,
    {
        self.loaded
    }

    /// How many animations have been loaded (wrapping).
    pub fn animation_count(&self) -> (count: u32)
        ensures
            count == self@.anim_count,
    {
        self.anim_count
    }

    /// The number of pages of the loaded animation.
    pub fn page_count(&self) -> (count: usize)
        ensures
            count == self@.page_count,
    {
        self.page_count
    }
}

} // verus!
