//! The caption buffer: turns a stream of recognised text fragments into a
//! bounded list of display lines that expire one at a time when idle.
//!
//! A fragment that begins with whitespace starts a new word; one that does
//! not continues the last word on screen. Timestamps are milliseconds on a
//! monotonic clock.

use vstd::prelude::*;
use crate::text::{
    append_chars, chars_of, concat_chars, copy_range, end_without_whitespace, find_last_space,
    is_whitespace, last_space, lower_of, lowercase, skip_whitespace, split_words,
    scan_words, starts_with_ws, string_of, trim, trim_end, trim_start, trimmed,
};

verus! {

/// How many characters at the end of the text are kept for overlap detection.
pub const TAIL_CHARS: usize = 60;

/// The shortest overlap that is removed from a new fragment.
pub const MIN_OVERLAP: usize = 4;

/// One display line as the contracts see it.
pub struct LineView {
    pub text: Seq<char>,
    pub stamp: u64,
}

/// The whole buffer as the contracts see it.
pub struct CaptionView {
    pub lines: Seq<LineView>,
    pub max_lines: nat,
    pub max_chars: nat,
    pub expire_secs: nat,
}

/// All line texts joined with nothing in between.
pub open spec fn all_text(lines: Seq<LineView>) -> Seq<char>
    decreases lines.len(),
{
    if lines.len() == 0 {
        Seq::empty()
    } else {
        all_text(lines.drop_last()) + lines.last().text
    }
}

/// The last `TAIL_CHARS` characters of `s`, or all of it when shorter.
pub open spec fn tail_of(s: Seq<char>) -> Seq<char> {
    if s.len() > TAIL_CHARS {
        s.subrange(s.len() - TAIL_CHARS, s.len() as int)
    } else {
        s
    }
}

/// The line texts joined by line breaks, oldest first.
pub open spec fn display_of(lines: Seq<LineView>) -> Seq<char>
    decreases lines.len(),
{
    if lines.len() == 0 {
        Seq::empty()
    } else if lines.len() == 1 {
        lines[0].text
    } else {
        display_of(lines.drop_last()) + seq!['\n'] + lines.last().text
    }
}

/// The last `k` characters of `a` equal the first `k` of `b`.
pub open spec fn suffix_matches_prefix(a: Seq<char>, b: Seq<char>, k: int) -> bool {
    a.subrange(a.len() - k, a.len() as int) == b.subrange(0, k)
}

/// The longest overlap of at most `k` characters (and at least `MIN_OVERLAP`)
/// between the end of `a` and the start of `b`, or 0 when there is none.
pub open spec fn overlap_from(a: Seq<char>, b: Seq<char>, k: int) -> int
    decreases k,
{
    if k < MIN_OVERLAP {
        0
    } else if suffix_matches_prefix(a, b, k) {
        k
    } else {
        overlap_from(a, b, k - 1)
    }
}

/// The longest length an overlap can have.
pub open spec fn overlap_bound(tail_lower: Seq<char>, body_lower: Seq<char>, body: Seq<char>) -> int {
    let m = if tail_lower.len() <= body_lower.len() {
        tail_lower.len()
    } else {
        body_lower.len()
    };
    if m <= body.len() {
        m as int
    } else {
        body.len() as int
    }
}

/// `body` with its overlap removed, where the overlap is looked for between
/// the lowercased tail and the lowercased body. What is left after the
/// overlap loses its leading whitespace; it may be empty.
pub open spec fn strip_overlap_spec(tail_lower: Seq<char>, body_lower: Seq<char>, body: Seq<char>) -> Seq<char> {
    let k = overlap_from(tail_lower, body_lower, overlap_bound(tail_lower, body_lower, body));
    if k == 0 {
        body
    } else {
        trim_start(body.subrange(k, body.len() as int))
    }
}

/// The trimmed fragment `body` once the text already shown (`tail`) has been
/// compared with it, ignoring case.
pub open spec fn deduplicate(tail: Seq<char>, body: Seq<char>) -> Seq<char> {
    if tail.len() == 0 {
        body
    } else {
        strip_overlap_spec(lower_of(tail), lower_of(body), body)
    }
}

/// The text to place: a fragment that began with whitespace keeps one
/// leading space, which marks the start of a new word.
pub open spec fn fragment_of(raw: Seq<char>, deduped: Seq<char>) -> Seq<char> {
    if starts_with_ws(raw) && !starts_with_ws(deduped) {
        seq![' '] + deduped
    } else {
        deduped
    }
}

/// Appends a line stamped `t`, first dropping the oldest when `max_lines` are shown.
pub open spec fn add_line(lines: Seq<LineView>, text: Seq<char>, max_lines: nat, t: u64) -> Seq<LineView> {
    let kept = if lines.len() >= max_lines {
        lines.drop_first()
    } else {
        lines
    };
    kept.push(LineView { text, stamp: t })
}

/// Places one word: on the last line after a space when it fits there,
/// otherwise on a new line.
pub open spec fn place_word(
    lines: Seq<LineView>,
    word: Seq<char>,
    max_lines: nat,
    max_chars: nat,
    t: u64,
) -> Seq<LineView> {
    if lines.len() == 0 {
        add_line(lines, word, max_lines, t)
    } else {
        let last = lines.last();
        if last.text.len() == 0 {
            lines.update(lines.len() - 1, LineView { text: word, stamp: last.stamp })
        } else if last.text.len() + 1 + word.len() <= max_chars {
            lines.update(
                lines.len() - 1,
                LineView { text: last.text + seq![' '] + word, stamp: last.stamp },
            )
        } else {
            add_line(lines, word, max_lines, t)
        }
    }
}

/// Places the words one after the other.
pub open spec fn fill_words(
    lines: Seq<LineView>,
    words: Seq<Seq<char>>,
    max_lines: nat,
    max_chars: nat,
    t: u64,
) -> Seq<LineView>
    decreases words.len(),
{
    if words.len() == 0 {
        lines
    } else {
        place_word(
            fill_words(lines, words.drop_last(), max_lines, max_chars, t),
            words.last(),
            max_lines,
            max_chars,
            t,
        )
    }
}

/// Joins a continuation fragment onto the last word shown. When the line
/// would grow past `max_chars`, the last word moves to a new line together
/// with the fragment; a line that is a single word is replaced by the joined word.
pub open spec fn join_onto_last(
    lines: Seq<LineView>,
    frag: Seq<char>,
    max_lines: nat,
    max_chars: nat,
    t: u64,
) -> Seq<LineView> {
    let n = lines.len() - 1;
    let last = lines[n];
    let combined = last.text + frag;
    if combined.len() <= max_chars {
        lines.update(n, LineView { text: combined, stamp: t })
    } else if last_space(last.text) >= 0 {
        let p = last_space(last.text);
        let kept = trim_end(last.text.subrange(0, p + 1));
        let moved = last.text.subrange(p + 1, last.text.len() as int) + frag;
        add_line(lines.update(n, LineView { text: kept, stamp: last.stamp }), moved, max_lines, t)
    } else {
        add_line(lines.drop_last(), combined, max_lines, t)
    }
}

/// Stamps the newest line with `t`.
pub open spec fn touch_last(lines: Seq<LineView>, t: u64) -> Seq<LineView> {
    if lines.len() > 0 {
        lines.update(lines.len() - 1, LineView { text: lines.last().text, stamp: t })
    } else {
        lines
    }
}

/// The lines after the fragment `raw` arrives at time `t`.
pub open spec fn push_lines(
    lines: Seq<LineView>,
    raw: Seq<char>,
    max_lines: nat,
    max_chars: nat,
    t: u64,
) -> Seq<LineView> {
    let body = trim(raw);
    let deduped = deduplicate(tail_of(all_text(lines)), body);
    if body.len() == 0 || deduped.len() == 0 {
        lines
    } else {
        let frag = fragment_of(raw, deduped);
        let placed = if !starts_with_ws(frag) && lines.len() > 0 {
            join_onto_last(lines, frag, max_lines, max_chars, t)
        } else {
            fill_words(lines, split_words(frag), max_lines, max_chars, t)
        };
        touch_last(placed, t)
    }
}

/// The buffer after the fragment `raw` arrives at time `t`.
pub open spec fn after_push(v: CaptionView, raw: Seq<char>, t: u64) -> CaptionView {
    CaptionView { lines: push_lines(v.lines, raw, v.max_lines, v.max_chars, t), ..v }
}

/// A line last active at `line.stamp` has been idle for `expire_secs` at `now`.
pub open spec fn is_idle(line: LineView, expire_secs: nat, now: u64) -> bool {
    line.stamp + expire_secs * 1000 <= now
}

/// Whether the oldest line is due to expire at `now`.
pub open spec fn expires(v: CaptionView, now: u64) -> bool {
    v.lines.len() > 0 && is_idle(v.lines[0], v.expire_secs, now)
}

/// The buffer after one expiry check at `now`: the oldest line goes if it is idle.
pub open spec fn after_expire(v: CaptionView, now: u64) -> CaptionView {
    if expires(v, now) {
        CaptionView { lines: v.lines.drop_first(), ..v }
    } else {
        v
    }
}

/// `overlap_from` finds the longest matching length in `[MIN_OVERLAP, k]`.
proof fn lemma_overlap_from(a: Seq<char>, b: Seq<char>, k: int)
    ensures
        overlap_from(a, b, k) == 0 ==> forall|j: int|
            MIN_OVERLAP <= j <= k ==> !#[trigger] suffix_matches_prefix(a, b, j),
        overlap_from(a, b, k) != 0 ==> {
            let o = overlap_from(a, b, k);
            &&& MIN_OVERLAP <= o <= k
            &&& suffix_matches_prefix(a, b, o)
            &&& forall|j: int| o < j <= k ==> !#[trigger] suffix_matches_prefix(a, b, j)
        },
    decreases k,
{
    if k >= MIN_OVERLAP {
        lemma_overlap_from(a, b, k - 1);
    }
}

/// Overlap removal: when the tail and the body share no overlap of at least
/// `MIN_OVERLAP` characters, the body is kept whole; otherwise exactly one
/// overlap is removed, the longest, and only its leading whitespace
/// follows it out.
pub proof fn lemma_overlap_removed_once(tail_lower: Seq<char>, body_lower: Seq<char>, body: Seq<char>)
    ensures
        (forall|j: int|
            MIN_OVERLAP <= j <= overlap_bound(tail_lower, body_lower, body)
                ==> !#[trigger] suffix_matches_prefix(tail_lower, body_lower, j))
            ==> strip_overlap_spec(tail_lower, body_lower, body) == body,
        (exists|j: int|
            MIN_OVERLAP <= j <= overlap_bound(tail_lower, body_lower, body)
                && #[trigger] suffix_matches_prefix(tail_lower, body_lower, j)) ==> exists|k: int|
            {
                &&& MIN_OVERLAP <= k <= overlap_bound(tail_lower, body_lower, body)
                &&& k <= body.len()
                &&& #[trigger] suffix_matches_prefix(tail_lower, body_lower, k)
                &&& forall|j: int|
                    k < j <= overlap_bound(tail_lower, body_lower, body)
                        ==> !#[trigger] suffix_matches_prefix(tail_lower, body_lower, j)
                &&& strip_overlap_spec(tail_lower, body_lower, body) == trim_start(
                    body.subrange(k, body.len() as int),
                )
            },
{
    let m = overlap_bound(tail_lower, body_lower, body);
    lemma_overlap_from(tail_lower, body_lower, m);
    let o = overlap_from(tail_lower, body_lower, m);
    if o != 0 {
        assert(suffix_matches_prefix(tail_lower, body_lower, o));
    }
}

/// Expiry removes at most one line per call, and only the oldest, and only
/// when it has been idle for the configured time; a line active more
/// recently than that stays.
pub proof fn lemma_expiry_one_oldest(v: CaptionView, now: u64)
    ensures
        after_expire(v, now).lines == v.lines || after_expire(v, now).lines == v.lines.drop_first(),
        after_expire(v, now).lines.len() >= v.lines.len() - 1,
        expires(v, now) <==> (v.lines.len() > 0 && v.lines[0].stamp + v.expire_secs * 1000 <= now),
        v.lines.len() > 0 && now < v.lines[0].stamp + v.expire_secs * 1000 ==> after_expire(v, now)
            == v,
{
}

/// A fragment that changes the buffer leaves its newest line stamped with
/// the time of arrival, so that line is not idle until the configured time
/// has passed after it.
pub proof fn lemma_push_marks_newest_active(v: CaptionView, raw: Seq<char>, t: u64)
    ensures
        after_push(v, raw, t).lines == v.lines || {
            let lines = after_push(v, raw, t).lines;
            lines.len() > 0 ==> lines.last().stamp == t
        },
{
}

/// The buffer after `n` expiry checks at `now`.
pub open spec fn expire_repeatedly(v: CaptionView, now: u64, n: nat) -> CaptionView
    decreases n,
{
    if n == 0 {
        v
    } else {
        expire_repeatedly(after_expire(v, now), now, (n - 1) as nat)
    }
}

/// When every line is idle, each expiry check removes one line until none
/// is left, and the check after that removes nothing.
pub proof fn lemma_expiry_drains(v: CaptionView, now: u64)
    requires
        forall|i: int| 0 <= i < v.lines.len() ==> is_idle(#[trigger] v.lines[i], v.expire_secs, now),
    ensures
        forall|n: nat|
            n < v.lines.len() ==> expires(#[trigger] expire_repeatedly(v, now, n), now)
                && expire_repeatedly(v, now, n).lines.len() == v.lines.len() - n,
        expire_repeatedly(v, now, v.lines.len()).lines.len() == 0,
        !expires(expire_repeatedly(v, now, v.lines.len()), now),
    decreases v.lines.len(),
{
    if v.lines.len() > 0 {
        let w = after_expire(v, now);
        assert(w.lines == v.lines.drop_first());
        assert forall|i: int| 0 <= i < w.lines.len() implies is_idle(
            #[trigger] w.lines[i],
            w.expire_secs,
            now,
        ) by {
            assert(w.lines[i] == v.lines[i + 1]);
        }
        lemma_expiry_drains(w, now);
        assert forall|n: nat| n < v.lines.len() implies expires(
            #[trigger] expire_repeatedly(v, now, n),
            now,
        ) && expire_repeatedly(v, now, n).lines.len() == v.lines.len() - n by {
            if n > 0 {
                assert(expire_repeatedly(v, now, n) == expire_repeatedly(w, now, (n - 1) as nat));
            }
        }
        assert(expire_repeatedly(v, now, v.lines.len()) == expire_repeatedly(
            w,
            now,
            w.lines.len(),
        ));
    }
}

/// Tells whether the last `k` characters of `a` equal the first `k` of `b`.
fn suffix_equals_prefix(a: &Vec<char>, b: &Vec<char>, k: usize) -> (r: bool)
    requires
        k <= a@.len(),
        k <= b@.len(),
    ensures
        r == suffix_matches_prefix(a@, b@, k as int),
{
    let off = a.len() - k;
    let mut j: usize = 0;
    while j < k
        invariant
            j <= k <= a@.len(),
            k <= b@.len(),
            off == a@.len() - k,
            off + k == a.len(),
            forall|x: int| 0 <= x < j ==> a@[off + x] == b@[x],
        decreases k - j,
    {
        if a[off + j] != b[j] {
            assert(a@.subrange(off as int, a@.len() as int)[j as int] != b@.subrange(0, k as int)[j as int]);
            return false;
        }
        j = j + 1;
    }
    assert(a@.subrange(off as int, a@.len() as int) =~= b@.subrange(0, k as int));
    true
}

/// Removes from `body` its longest overlap (of at least `MIN_OVERLAP`
/// characters) with the end of the text already shown. `tail_lower` and
/// `body_lower` are the lowercased tail and body, so the comparison
/// ignores case; the characters removed are those of `body`.
pub fn strip_overlap(tail_lower: &Vec<char>, body_lower: &Vec<char>, body: &Vec<char>) -> (r: Vec<char>)
    ensures
        r@ == strip_overlap_spec(tail_lower@, body_lower@, body@),
{
    let mut m = tail_lower.len();
    if body_lower.len() < m {
        m = body_lower.len();
    }
    if body.len() < m {
        m = body.len();
    }
    assert(m == overlap_bound(tail_lower@, body_lower@, body@));
    let mut k = m;
    while k >= MIN_OVERLAP
        invariant
            k <= m,
            m == overlap_bound(tail_lower@, body_lower@, body@),
            m <= tail_lower@.len(),
            m <= body_lower@.len(),
            m <= body@.len(),
            overlap_from(tail_lower@, body_lower@, m as int) == overlap_from(
                tail_lower@,
                body_lower@,
                k as int,
            ),
        decreases k,
    {
        if suffix_equals_prefix(tail_lower, body_lower, k) {
            let start = skip_whitespace(body, k);
            return copy_range(body, start, body.len());
        }
        k = k - 1;
    }
    assert(body@.subrange(0, body@.len() as int) =~= body@);
    copy_range(body, 0, body.len())
}

/// Relies on `Instant::now`: reads the monotonic clock.
#[verifier::external_body]
fn clock_start() -> std::time::Instant {
    std::time::Instant::now()
}

/// Relies on `Instant::elapsed`: the whole milliseconds passed since `start`.
#[verifier::external_body]
fn millis_since(start: &std::time::Instant) -> u64 {
    start.elapsed().as_millis() as u64
}

#[verifier::external_type_specification]
#[verifier::external_body]
pub struct ExInstant(std::time::Instant);

/// One line of caption text and the time it was last active.
struct CaptionLine {
    text: Vec<char>,
    last_active: u64,
}

impl View for CaptionLine {
    type V = LineView;

    closed spec fn view(&self) -> LineView {
        LineView { text: self.text@, stamp: self.last_active }
    }
}

/// Bounded, time-decaying list of caption lines, oldest first.
pub struct CaptionBuffer {
    lines: Vec<CaptionLine>,
    max_lines: usize,
    max_chars_per_line: usize,
    expire_secs: u64,
    /// The end of the text shown, kept for overlap detection.
    last_tail: Vec<char>,
    /// The clock origin that `push` and `expire` measure time from.
    started: std::time::Instant,
}

impl View for CaptionBuffer {
    type V = CaptionView;

    closed spec fn view(&self) -> CaptionView {
        CaptionView {
            lines: self.lines_view(),
            max_lines: self.max_lines as nat,
            max_chars: self.max_chars_per_line as nat,
            expire_secs: self.expire_secs as nat,
        }
    }
}

impl CaptionBuffer {
    closed spec fn lines_view(&self) -> Seq<LineView> {
        self.lines@.map_values(|l: CaptionLine| l@)
    }

    /// The cached tail is the end of the text shown.
    pub closed spec fn tail_cached(&self) -> bool {
        self.last_tail@ == tail_of(all_text(self.lines_view()))
    }

    closed spec fn shape_ok(&self) -> bool {
        self.max_lines >= 1 && self.lines@.len() <= self.max_lines
    }

    closed spec fn same_settings(&self, other: &Self) -> bool {
        &&& self.max_lines == other.max_lines
        &&& self.max_chars_per_line == other.max_chars_per_line
        &&& self.expire_secs == other.expire_secs
        &&& self.last_tail == other.last_tail
    }

    /// Well-formed: at least one line allowed, no more lines than allowed,
    /// and the overlap tail up to date.
    pub open spec fn wf(&self) -> bool {
        &&& self@.max_lines >= 1
        &&& self@.lines.len() <= self@.max_lines
        &&& self.tail_cached()
    }

    /// An empty buffer showing at most `max_lines` lines of about
    /// `max_chars_per_line` characters, whose lines expire after
    /// `expire_secs` seconds without activity.
    pub fn new(max_lines: usize, max_chars_per_line: usize, expire_secs: u64) -> (r: Self)
        requires
            max_lines >= 1,
        ensures
            r.wf(),
            r@.lines == Seq::<LineView>::empty(),
            r@.max_lines == max_lines,
            r@.max_chars == max_chars_per_line,
            r@.expire_secs == expire_secs,
    {
        let r = CaptionBuffer {
            lines: Vec::new(),
            max_lines,
            max_chars_per_line,
            expire_secs,
            last_tail: Vec::new(),
            started: clock_start(),
        };
        assert(r.lines_view() =~= Seq::<LineView>::empty());
        r
    }

    proof fn lemma_view_push(s: Seq<CaptionLine>, l: CaptionLine)
        ensures
            s.push(l).map_values(|x: CaptionLine| x@) == s.map_values(|x: CaptionLine| x@).push(l@),
    {
        assert(s.push(l).map_values(|x: CaptionLine| x@) =~= s.map_values(|x: CaptionLine| x@).push(l@));
    }

    /// Appends a line, first dropping the oldest when the buffer is full.
    fn add_line(&mut self, text: Vec<char>, now_ms: u64)
        requires
            old(self).shape_ok(),
        ensures
            final(self).shape_ok(),
            final(self).same_settings(old(self)),
            final(self).lines_view() == add_line(
                old(self).lines_view(),
                text@,
                old(self).max_lines as nat,
                now_ms,
            ),
    {
        let ghost before = self.lines@;
        if self.lines.len() >= self.max_lines {
            self.lines.remove(0);
            assert(self.lines@.map_values(|x: CaptionLine| x@) =~= before.map_values(|x: CaptionLine| x@).drop_first());
        }
        let ghost mid = self.lines@;
        let line = CaptionLine { text, last_active: now_ms };
        self.lines.push(line);
        proof {
            Self::lemma_view_push(mid, line);
        }
    }

    /// Takes the last line out.
    fn take_last(&mut self) -> (r: CaptionLine)
        requires
            old(self).lines@.len() > 0,
        ensures
            final(self).same_settings(old(self)),
            final(self).lines@ == old(self).lines@.drop_last(),
            r == old(self).lines@.last(),
            final(self).lines_view() == old(self).lines_view().drop_last(),
    {
        let r = self.lines.pop().unwrap();
        assert(self.lines_view() =~= old(self).lines_view().drop_last());
        r
    }

    /// Places one word, after a space on the last line when it fits there.
    fn place_word(&mut self, word: Vec<char>, now_ms: u64)
        requires
            old(self).shape_ok(),
        ensures
            final(self).shape_ok(),
            final(self).same_settings(old(self)),
            final(self).lines_view() == place_word(
                old(self).lines_view(),
                word@,
                old(self).max_lines as nat,
                old(self).max_chars_per_line as nat,
                now_ms,
            ),
    {
        if self.lines.len() == 0 {
            self.add_line(word, now_ms);
            return;
        }
        let ghost lv = self.lines_view();
        let mut last = self.take_last();
        let ghost rest = self.lines@;
        let ghost old_text = last.text@;
        assert(lv.last() == last@);
        if last.text.len() == 0 {
            last.text = word;
        } else if last.text.len() < self.max_chars_per_line && word.len()
            <= self.max_chars_per_line - last.text.len() - 1 {
            last.text.push(' ');
            append_chars(&mut last.text, &word);
            assert(last.text@ =~= old_text + seq![' '] + word@);
        } else {
            self.lines.push(last);
            assert(self.lines@ =~= old(self).lines@);
            self.add_line(word, now_ms);
            return;
        }
        self.lines.push(last);
        proof {
            Self::lemma_view_push(rest, last);
            assert(self.lines_view() =~= lv.update(lv.len() - 1, last@));
        }
    }

    /// Places the words of `frag` one after the other.
    fn fill_words(&mut self, frag: &Vec<char>, now_ms: u64)
        requires
            old(self).shape_ok(),
        ensures
            final(self).shape_ok(),
            final(self).same_settings(old(self)),
            final(self).lines_view() == fill_words(
                old(self).lines_view(),
                split_words(frag@),
                old(self).max_lines as nat,
                old(self).max_chars_per_line as nat,
                now_ms,
            ),
    {
        let ghost start = self.lines_view();
        let ghost ml = self.max_lines as nat;
        let ghost mc = self.max_chars_per_line as nat;
        let mut cur: Vec<char> = Vec::new();
        let mut i: usize = 0;
        while i < frag.len()
            invariant
                i <= frag@.len(),
                self.shape_ok(),
                self.same_settings(old(self)),
                ml == self.max_lines,
                mc == self.max_chars_per_line,
                self.lines_view() == fill_words(
                    start,
                    scan_words(frag@.subrange(0, i as int)).0,
                    ml,
                    mc,
                    now_ms,
                ),
                cur@ == scan_words(frag@.subrange(0, i as int)).1,
            decreases frag@.len() - i,
        {
            let c = frag[i];
            let ghost pre = frag@.subrange(0, i as int);
            assert(frag@.subrange(0, i + 1).drop_last() =~= pre);
            assert(frag@.subrange(0, i + 1).last() == c);
            if is_whitespace(c) {
                if cur.len() > 0 {
                    let word = cur;
                    cur = Vec::new();
                    self.place_word(word, now_ms);
                    proof {
                        let done = scan_words(pre).0;
                        assert(done.push(word@).drop_last() =~= done);
                    }
                }
            } else {
                cur.push(c);
            }
            i = i + 1;
        }
        assert(frag@.subrange(0, frag@.len() as int) =~= frag@);
        if cur.len() > 0 {
            let ghost done = scan_words(frag@).0;
            let ghost w = cur@;
            self.place_word(cur, now_ms);
            assert(done.push(w).drop_last() =~= done);
        }
    }

    /// Joins a continuation fragment onto the last word shown.
    fn join_onto_last(&mut self, frag: &Vec<char>, now_ms: u64)
        requires
            old(self).shape_ok(),
            old(self).lines@.len() > 0,
        ensures
            final(self).shape_ok(),
            final(self).same_settings(old(self)),
            final(self).lines_view() == join_onto_last(
                old(self).lines_view(),
                frag@,
                old(self).max_lines as nat,
                old(self).max_chars_per_line as nat,
                now_ms,
            ),
    {
        let ghost lv = self.lines_view();
        let mut last = self.take_last();
        let ghost rest = self.lines@;
        let combined = concat_chars(&last.text, frag);
        if combined.len() <= self.max_chars_per_line {
            last.text = combined;
            last.last_active = now_ms;
            self.lines.push(last);
            proof {
                Self::lemma_view_push(rest, last);
                assert(self.lines_view() =~= lv.update(lv.len() - 1, last@));
            }
        } else {
            match find_last_space(&last.text) {
                Some(p) => {
                    let moved_word = copy_range(&last.text, p + 1, last.text.len());
                    let keep = end_without_whitespace(&last.text, p + 1);
                    let kept = copy_range(&last.text, 0, keep);
                    let moved = concat_chars(&moved_word, frag);
                    last.text = kept;
                    self.lines.push(last);
                    proof {
                        Self::lemma_view_push(rest, last);
                        assert(self.lines_view() =~= lv.update(lv.len() - 1, last@));
                    }
                    self.add_line(moved, now_ms);
                },
                None => {
                    self.add_line(combined, now_ms);
                },
            }
        }
    }

    /// Stamps the newest line with `now_ms`.
    fn touch_last(&mut self, now_ms: u64)
        requires
            old(self).shape_ok(),
        ensures
            final(self).shape_ok(),
            final(self).same_settings(old(self)),
            final(self).lines_view() == touch_last(old(self).lines_view(), now_ms),
    {
        if self.lines.len() > 0 {
            let ghost lv = self.lines_view();
            let mut last = self.take_last();
            let ghost rest = self.lines@;
            last.last_active = now_ms;
            self.lines.push(last);
            proof {
                Self::lemma_view_push(rest, last);
                assert(self.lines_view() =~= lv.update(lv.len() - 1, last@));
            }
        }
    }

    /// All line texts joined with nothing in between.
    fn all_text(&self) -> (r: Vec<char>)
        ensures
            r@ == all_text(self.lines_view()),
    {
        let ghost lv = self.lines_view();
        let mut acc: Vec<char> = Vec::new();
        let mut i: usize = 0;
        while i < self.lines.len()
            invariant
                i <= self.lines@.len(),
                lv == self.lines_view(),
                acc@ == all_text(lv.subrange(0, i as int)),
            decreases self.lines@.len() - i,
        {
            assert(lv.subrange(0, i + 1).drop_last() =~= lv.subrange(0, i as int));
            append_chars(&mut acc, &self.lines[i].text);
            i = i + 1;
        }
        assert(lv.subrange(0, lv.len() as int) =~= lv);
        acc
    }

    /// Recomputes the overlap tail from the lines.
    fn refresh_tail(&mut self)
        ensures
            final(self).tail_cached(),
            final(self).lines == old(self).lines,
            final(self).max_lines == old(self).max_lines,
            final(self).max_chars_per_line == old(self).max_chars_per_line,
            final(self).expire_secs == old(self).expire_secs,
    {
        let all = self.all_text();
        let n = all.len();
        let lo = if n > TAIL_CHARS {
            n - TAIL_CHARS
        } else {
            0
        };
        self.last_tail = copy_range(&all, lo, n);
        assert(all@.subrange(0, n as int) =~= all@);
    }

    /// Adds a fragment that arrived at `now_ms`. Leading whitespace in
    /// `text` marks the start of a new word; without it the fragment
    /// continues the last word shown.
    pub fn push_at(&mut self, text: String, now_ms: u64)
        requires
            old(self).wf(),
        ensures
            final(self).wf(),
            final(self)@ == after_push(old(self)@, text@, now_ms),
    {
        let raw = chars_of(text.as_str());
        let body = trimmed(&raw);
        if body.len() == 0 {
            return;
        }
        let deduped = if self.last_tail.len() == 0 {
            body
        } else {
            let tail_lower = chars_of(lowercase(string_of(&self.last_tail).as_str()).as_str());
            let body_lower = chars_of(lowercase(string_of(&body).as_str()).as_str());
            strip_overlap(&tail_lower, &body_lower, &body)
        };
        if deduped.len() == 0 {
            return;
        }
        let fragment = if raw.len() > 0 && is_whitespace(raw[0]) && !is_whitespace(deduped[0]) {
            let mut f: Vec<char> = vec![' '];
            append_chars(&mut f, &deduped);
            assert(f@ =~= seq![' '] + deduped@);
            f
        } else {
            deduped
        };
        if !is_whitespace(fragment[0]) && self.lines.len() > 0 {
            self.join_onto_last(&fragment, now_ms);
        } else {
            self.fill_words(&fragment, now_ms);
        }
        self.touch_last(now_ms);
        self.refresh_tail();
    }

    /// Adds a fragment, stamped with the current time.
    pub fn push(&mut self, text: String)
        requires
            old(self).wf(),
        ensures
            final(self).wf(),
            exists|t: u64| final(self)@ == after_push(old(self)@, text@, t),
    {
        let now = millis_since(&self.started);
        self.push_at(text, now);
    }

    /// Removes the oldest line if it has been idle for the configured time
    /// at `now_ms`; at most one line goes per call. Returns whether one went.
    pub fn expire_at(&mut self, now_ms: u64) -> (r: bool)
        requires
            old(self).wf(),
        ensures
            final(self).wf(),
            r == expires(old(self)@, now_ms),
            final(self)@ == after_expire(old(self)@, now_ms),
    {
        if self.lines.len() == 0 {
            return false;
        }
        let stamp = self.lines[0].last_active;
        if (stamp as u128) + (self.expire_secs as u128) * 1000 <= now_ms as u128 {
            let ghost before = self.lines@;
            self.lines.remove(0);
            assert(self.lines_view() =~= before.map_values(|x: CaptionLine| x@).drop_first());
            self.refresh_tail();
            true
        } else {
            false
        }
    }

    /// Removes the oldest line if it has been idle for the configured time.
    pub fn expire(&mut self) -> (r: bool)
        requires
            old(self).wf(),
        ensures
            final(self).wf(),
            exists|t: u64| r == expires(old(self)@, t) && final(self)@ == after_expire(old(self)@, t),
    {
        let now = millis_since(&self.started);
        self.expire_at(now)
    }

    /// The lines joined by line breaks, oldest first.
    pub fn display_text(&self) -> (r: String)
        ensures
            r@ == display_of(self@.lines),
    {
        let ghost lv = self.lines_view();
        let mut acc: Vec<char> = Vec::new();
        let mut i: usize = 0;
        while i < self.lines.len()
            invariant
                i <= self.lines@.len(),
                lv == self.lines_view(),
                acc@ == display_of(lv.subrange(0, i as int)),
            decreases self.lines@.len() - i,
        {
            let ghost prev = acc@;
            assert(lv.subrange(0, i + 1).drop_last() =~= lv.subrange(0, i as int));
            if i > 0 {
                acc.push('\n');
            }
            append_chars(&mut acc, &self.lines[i].text);
            if i > 0 {
                assert(acc@ =~= prev + seq!['\n'] + lv[i as int].text);
            } else {
                assert(acc@ =~= lv[0].text);
            }
            i = i + 1;
        }
        assert(lv.subrange(0, lv.len() as int) =~= lv);
        string_of(&acc)
    }

    /// How many lines are shown.
    pub fn line_count(&self) -> (r: usize)
        ensures
            r == self@.lines.len(),
    {
        self.lines.len()
    }

    /// The text of line `i`, counting from the oldest.
    pub fn line_text(&self, i: usize) -> (r: String)
        requires
            i < self@.lines.len(),
        ensures
            r@ == self@.lines[i as int].text,
    {
        string_of(&self.lines[i].text)
    }
}

} // verus!
