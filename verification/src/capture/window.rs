//! Windows that can be recorded: listing them from what the screen offers,
//! their sizes and positions, filtering by title, and picking one by number.
use vstd::prelude::*;

use crate::error::LoomError;
use crate::text::{
    chars_of, contains_seq, lowercase, matches_ignoring_case, parse_unsigned, parse_unsigned_range,
    push_decimal, push_signed, trim, trim_bounds, decimal, signed_decimal,
};

verus! {

/// A window chosen for recording: its title, size and position on screen.
#[derive(Debug, Clone, PartialEq, Eq)]
pub struct WindowTarget {
    pub title: String,
    pub width: u32,
    pub height: u32,
    /// Window position on screen.
    pub x: i32,
    /// Window position on screen.
    pub y: i32,
}

impl WindowTarget {
    /// A copy of this window, field for field.
    pub fn duplicate(&self) -> (r: WindowTarget)
        ensures
            r == *self,
    {
        WindowTarget {
            title: self.title.clone(),
            width: self.width,
            height: self.height,
            x: self.x,
            y: self.y,
        }
    }
}

/// The rectangle of a window or display on screen, in whole points.
#[derive(Debug, Clone, Copy, PartialEq, Eq)]
pub struct WindowFrame {
    pub width: u32,
    pub height: u32,
    pub x: i32,
    pub y: i32,
}

/// A window as the system's shareable content describes it.
#[derive(Debug, Clone, Copy, PartialEq, Eq)]
pub struct ContentWindow {
    pub id: u32,
    pub frame: WindowFrame,
}

/// The windows and displays that the system offers for capture, in its order.
#[derive(Debug, Clone)]
pub struct ShareableContent {
    pub windows: Vec<ContentWindow>,
    pub displays: Vec<WindowFrame>,
}

/// Something that screen capture can target.
#[derive(Debug, Clone, PartialEq, Eq)]
pub enum CaptureTarget {
    Window { id: u32, title: String },
    Display { id: u32 },
}

/// Size and position as a `(width, height, x, y)` tuple.
pub open spec fn frame_tuple(f: WindowFrame) -> (u32, u32, i32, i32) {
    (f.width, f.height, f.x, f.y)
}

/// The frame of the first window in `ws` whose id is `id`.
pub open spec fn first_with_id(ws: Seq<ContentWindow>, id: u32) -> Option<WindowFrame>
    decreases ws.len(),
{
    if ws.len() == 0 {
        None
    } else if ws[0].id == id {
        Some(ws[0].frame)
    } else {
        first_with_id(ws.drop_first(), id)
    }
}

/// Size and position of a target: a window is looked up by id among the
/// content's windows, a display takes the first display's frame; when the
/// content could not be had or holds no such entry, a window counts as
/// 1280x720 and a display as 1920x1080, both at the origin.
pub open spec fn target_dimensions(target: CaptureTarget, content: Option<ShareableContent>) -> (
    u32,
    u32,
    i32,
    i32,
) {
    match target {
        CaptureTarget::Window { id, .. } => match content {
            None => (1280, 720, 0, 0),
            Some(c) => match first_with_id(c.windows@, id) {
                Some(f) => frame_tuple(f),
                None => (1280, 720, 0, 0),
            },
        },
        CaptureTarget::Display { .. } => match content {
            None => (1920, 1080, 0, 0),
            Some(c) => if c.displays@.len() > 0 {
                frame_tuple(c.displays@[0])
            } else {
                (1920, 1080, 0, 0)
            },
        },
    }
}

proof fn lemma_first_with_id_skip(ws: Seq<ContentWindow>, id: u32, i: int)
    requires
        0 <= i < ws.len(),
        ws[i].id != id,
    ensures
        first_with_id(ws.skip(i), id) == first_with_id(ws.skip(i + 1), id),
{
    assert(ws.skip(i).drop_first() =~= ws.skip(i + 1));
}

/// A window is found at the first entry of the content that carries its id:
/// its size and position are that entry's frame.
pub proof fn law_window_found_at_first_match(
    id: u32,
    title: String,
    c: ShareableContent,
    i: int,
)
    requires
        0 <= i < c.windows@.len(),
        c.windows@[i].id == id,
        forall|j: int| 0 <= j < i ==> #[trigger] c.windows@[j].id != id,
    ensures
        target_dimensions(CaptureTarget::Window { id, title }, Some(c)) == (
            c.windows@[i].frame.width,
            c.windows@[i].frame.height,
            c.windows@[i].frame.x,
            c.windows@[i].frame.y,
        ),
{
    lemma_first_match(c.windows@, id, i);
}

proof fn lemma_first_match(ws: Seq<ContentWindow>, id: u32, i: int)
    requires
        0 <= i < ws.len(),
        ws[i].id == id,
        forall|j: int| 0 <= j < i ==> #[trigger] ws[j].id != id,
    ensures
        first_with_id(ws, id) == Some(ws[i].frame),
    decreases i,
{
    if i > 0 {
        let t = ws.drop_first();
        assert(ws[0].id != id);
        assert forall|j: int| 0 <= j < i - 1 implies #[trigger] t[j].id != id by {
            assert(t[j] == ws[j + 1]);
        }
        lemma_first_match(t, id, i - 1);
    }
}

proof fn lemma_no_match(ws: Seq<ContentWindow>, id: u32)
    requires
        forall|j: int| 0 <= j < ws.len() ==> #[trigger] ws[j].id != id,
    ensures
        first_with_id(ws, id) is None,
    decreases ws.len(),
{
    if ws.len() > 0 {
        let t = ws.drop_first();
        assert(ws[0].id != id);
        assert forall|j: int| 0 <= j < t.len() implies #[trigger] t[j].id != id by {
            assert(t[j] == ws[j + 1]);
        }
        lemma_no_match(t, id);
    }
}

/// A window falls back to 1280x720 at the origin only when no entry of the
/// content carries its id, or when the content could not be read.
pub proof fn law_window_default_only_when_absent(id: u32, title: String, c: Option<ShareableContent>)
    ensures
        (c is None || (forall|j: int|
            0 <= j < c.unwrap().windows@.len() ==> #[trigger] c.unwrap().windows@[j].id != id))
            ==> target_dimensions(CaptureTarget::Window { id, title }, c) == (1280u32, 720u32, 0i32, 0i32),
        (c is Some && exists|j: int|
            0 <= j < c.unwrap().windows@.len() && #[trigger] c.unwrap().windows@[j].id == id) ==> {
            let ws = c.unwrap().windows@;
            let i = choose|i: int|
                0 <= i < ws.len() && ws[i].id == id && forall|j: int|
                    0 <= j < i ==> #[trigger] ws[j].id != id;
            target_dimensions(CaptureTarget::Window { id, title }, c) == (
                ws[i].frame.width,
                ws[i].frame.height,
                ws[i].frame.x,
                ws[i].frame.y,
            )
        },
{
    if let Some(cc) = c {
        let ws = cc.windows@;
        if forall|j: int| 0 <= j < ws.len() ==> #[trigger] ws[j].id != id {
            lemma_no_match(ws, id);
        } else {
            let k = lemma_least_match(ws, id, 0);
            assert(0 <= k < ws.len() && ws[k].id == id && forall|j: int|
                0 <= j < k ==> #[trigger] ws[j].id != id);
            let i = choose|i: int|
                0 <= i < ws.len() && ws[i].id == id && forall|j: int|
                    0 <= j < i ==> #[trigger] ws[j].id != id;
            lemma_first_match(ws, id, i);
        }
    }
}

proof fn lemma_least_match(ws: Seq<ContentWindow>, id: u32, start: int) -> (k: int)
    requires
        0 <= start <= ws.len(),
        forall|j: int| 0 <= j < start ==> #[trigger] ws[j].id != id,
        exists|j: int| start <= j < ws.len() && #[trigger] ws[j].id == id,
    ensures
        start <= k < ws.len(),
        ws[k].id == id,
        forall|j: int| 0 <= j < k ==> #[trigger] ws[j].id != id,
    decreases ws.len() - start,
{
    if ws[start].id == id {
        start
    } else {
        lemma_least_match(ws, id, start + 1)
    }
}

/// Size and position of a capture target, from the shareable content when it
/// could be had (`None` when fetching it failed).
pub fn get_window_dimensions(target: &CaptureTarget, content: &Option<ShareableContent>) -> (r: (
    u32,
    u32,
    i32,
    i32,
))
    ensures
        r == target_dimensions(*target, *content),
{
    match target {
        CaptureTarget::Window { id, .. } => {
            match content {
                None => (1280, 720, 0, 0),
                Some(c) => {
                    let n = c.windows.len();
                    let mut i: usize = 0;
                    assert(c.windows@.skip(0) =~= c.windows@);
                    while i < n
                        invariant
                            i <= n == c.windows@.len(),
                            *content == Some(*c),
                            *target matches CaptureTarget::Window { id: tid, .. } && tid == *id,
                            first_with_id(c.windows@, *id) == first_with_id(
                                c.windows@.skip(i as int),
                                *id,
                            ),
                        decreases n - i,
                    {
                        let w = c.windows[i];
                        if w.id == *id {
                            assert(c.windows@.skip(i as int)[0] == w);
                            return (w.frame.width, w.frame.height, w.frame.x, w.frame.y);
                        }
                        proof {
                            lemma_first_with_id_skip(c.windows@, *id, i as int);
                        }
                        i = i + 1;
                    }
                    assert(c.windows@.skip(n as int).len() == 0);
                    (1280, 720, 0, 0)
                },
            }
        },
        CaptureTarget::Display { .. } => {
            match content {
                None => (1920, 1080, 0, 0),
                Some(c) => {
                    if c.displays.len() > 0 {
                        let f = c.displays[0];
                        (f.width, f.height, f.x, f.y)
                    } else {
                        (1920, 1080, 0, 0)
                    }
                },
            }
        },
    }
}

/// The window that a capture target yields for the list: windows with a
/// title, with their size and position; displays and untitled windows yield none.
pub open spec fn listed_window(t: CaptureTarget, content: Option<ShareableContent>) -> Option<
    WindowTarget,
> {
    match t {
        CaptureTarget::Window { title, .. } => if title@.len() == 0 {
            None
        } else {
            let d = target_dimensions(t, content);
            Some(WindowTarget { title: title, width: d.0, height: d.1, x: d.2, y: d.3 })
        },
        CaptureTarget::Display { .. } => None,
    }
}

/// A capture target with the shareable content that was read for it (`None`
/// when reading it failed); each window's size is looked up in its own reading.
#[derive(Debug, Clone)]
pub struct TargetReading {
    pub target: CaptureTarget,
    pub content: Option<ShareableContent>,
}

/// The windows that a list of capture targets yields, in order.
pub open spec fn listed_windows(ts: Seq<TargetReading>) -> Seq<WindowTarget>
    decreases ts.len(),
{
    if ts.len() == 0 {
        seq![]
    } else {
        let rest = listed_windows(ts.drop_last());
        match listed_window(ts.last().target, ts.last().content) {
            Some(w) => rest.push(w),
            None => rest,
        }
    }
}

/// All windows available for capture, in the order of `targets`: every
/// window target with a nonempty title, with the size and position that the
/// content read for it gives. Never fails.
pub fn list_all_windows(targets: &Vec<TargetReading>) -> (r: Result<Vec<WindowTarget>, LoomError>)
    ensures
        r matches Ok(ws) && ws@ == listed_windows(targets@),
{
    let mut out: Vec<WindowTarget> = Vec::new();
    let n = targets.len();
    let mut i: usize = 0;
    while i < n
        invariant
            i <= n == targets@.len(),
            out@ == listed_windows(targets@.take(i as int)),
        decreases n - i,
    {
        let reading = &targets[i];
        assert(targets@.take(i + 1).drop_last() =~= targets@.take(i as int));
        assert(targets@.take(i + 1).last() == *reading);
        let t = &reading.target;
        match t {
            CaptureTarget::Window { title, .. } => {
                if !title.as_str().is_empty() {
                    let (width, height, x, y) = get_window_dimensions(t, &reading.content);
                    out.push(WindowTarget { title: title.clone(), width, height, x, y });
                }
            },
            CaptureTarget::Display { .. } => {},
        }
        i = i + 1;
    }
    assert(targets@.take(n as int) =~= targets@);
    Ok(out)
}

/// Whether a capture target is a window with a nonempty title.
pub open spec fn is_titled_window(t: CaptureTarget) -> bool {
    t matches CaptureTarget::Window { title, .. } && title@.len() > 0
}

/// The listing has exactly one entry per titled window target, in their
/// order: the `k`-th entry carries the `k`-th such target's title and the size
/// and position looked up for that target in its own reading.
pub proof fn law_listing_one_entry_per_titled_window(ts: Seq<TargetReading>)
    ensures
        listed_windows(ts).len() == ts.filter(|r: TargetReading| is_titled_window(r.target)).len(),
        forall|k: int|
            0 <= k < listed_windows(ts).len() ==> {
                let r = ts.filter(|r: TargetReading| is_titled_window(r.target))[k];
                let d = target_dimensions(r.target, r.content);
                &&& r.target matches CaptureTarget::Window { title, .. } && #[trigger] listed_windows(ts)[k].title == title
                &&& listed_windows(ts)[k].width == d.0
                &&& listed_windows(ts)[k].height == d.1
                &&& listed_windows(ts)[k].x == d.2
                &&& listed_windows(ts)[k].y == d.3
            },
    decreases ts.len(),
{
    reveal(Seq::filter);
    if ts.len() > 0 {
        let init = ts.drop_last();
        law_listing_one_entry_per_titled_window(init);
        let p = |r: TargetReading| is_titled_window(r.target);
        let f = ts.filter(p);
        let fi = init.filter(p);
        let l = listed_windows(ts);
        let li = listed_windows(init);
        assert forall|k: int| 0 <= k < l.len() implies {
            let r = f[k];
            let d = target_dimensions(r.target, r.content);
            &&& r.target matches CaptureTarget::Window { title, .. } && #[trigger] l[k].title == title
            &&& l[k].width == d.0
            &&& l[k].height == d.1
            &&& l[k].x == d.2
            &&& l[k].y == d.3
        } by {
            if k < li.len() {
                assert(l[k] == li[k]);
                assert(f[k] == fi[k]);
            } else {
                assert(f[k] == ts.last());
            }
        }
    }
}

/// Every listed window has a title, and there are at most as many windows as
/// capture targets.
pub proof fn law_listed_windows_have_titles(ts: Seq<TargetReading>)
    ensures
        listed_windows(ts).len() <= ts.len(),
        forall|i: int|
            0 <= i < listed_windows(ts).len() ==> #[trigger] listed_windows(ts)[i].title@.len() > 0,
    decreases ts.len(),
{
    if ts.len() > 0 {
        law_listed_windows_have_titles(ts.drop_last());
        let l = listed_windows(ts);
        let li = listed_windows(ts.drop_last());
        assert forall|i: int| 0 <= i < l.len() implies #[trigger] l[i].title@.len() > 0 by {
            if i < li.len() {
                assert(l[i] == li[i]);
            }
        }
    }
}

// ---------------------------------------------------------------------------
// Filtering by title
// ---------------------------------------------------------------------------

/// `w`'s title contains `filter`, both taken in lowercase.
pub open spec fn title_matches(w: WindowTarget, filter: Seq<char>) -> bool {
    contains_seq(lowercase(w.title@), lowercase(filter))
}

/// The windows of `ws` whose title matches `filter`, in their order.
pub open spec fn matching_windows(ws: Seq<WindowTarget>, filter: Seq<char>) -> Seq<WindowTarget>
    decreases ws.len(),
{
    if ws.len() == 0 {
        seq![]
    } else {
        let rest = matching_windows(ws.drop_last(), filter);
        if title_matches(ws.last(), filter) {
            rest.push(ws.last())
        } else {
            rest
        }
    }
}

/// The filtered list holds exactly the windows whose title matches, each as
/// often as in the full list and in the same order: it is a subsequence.
pub proof fn law_filter_keeps_exactly_matches(ws: Seq<WindowTarget>, filter: Seq<char>)
    ensures
        forall|w: WindowTarget|
            #[trigger] matching_windows(ws, filter).contains(w) <==> (ws.contains(w)
                && contains_seq(lowercase(w.title@), lowercase(filter))),
        matching_windows(ws, filter).len() <= ws.len(),
    decreases ws.len(),
{
    if ws.len() > 0 {
        let init = ws.drop_last();
        law_filter_keeps_exactly_matches(init, filter);
        let m = matching_windows(ws, filter);
        let mi = matching_windows(init, filter);
        assert forall|w: WindowTarget| #[trigger] m.contains(w) <==> (ws.contains(w)
            && contains_seq(lowercase(w.title@), lowercase(filter))) by {
            if m.contains(w) {
                let k = choose|k: int| 0 <= k < m.len() && m[k] == w;
                if k < mi.len() {
                    assert(mi[k] == w);
                    assert(mi.contains(w));
                    let j = choose|j: int| 0 <= j < init.len() && init[j] == w;
                    assert(ws[j] == w);
                } else {
                    assert(ws[ws.len() - 1] == w);
                }
            }
            if ws.contains(w) && title_matches(w, filter) {
                let j = choose|j: int| 0 <= j < ws.len() && ws[j] == w;
                if j < ws.len() - 1 {
                    assert(init[j] == w);
                    assert(init.contains(w));
                    assert(mi.contains(w));
                    let k = choose|k: int| 0 <= k < mi.len() && mi[k] == w;
                    assert(m[k] == w);
                } else {
                    assert(m[m.len() - 1] == w);
                }
            }
        }
    }
}

/// Filtering keeps, in their order and with repetitions, exactly the windows
/// whose whole title, in lowercase, contains the lowercase filter.
pub proof fn law_filter_is_title_subsequence(ws: Seq<WindowTarget>, filter: Seq<char>)
    ensures
        matching_windows(ws, filter) == ws.filter(
            |w: WindowTarget| contains_seq(lowercase(w.title@), lowercase(filter)),
        ),
    decreases ws.len(),
{
    reveal(Seq::filter);
    if ws.len() > 0 {
        law_filter_is_title_subsequence(ws.drop_last(), filter);
    }
}

/// The windows whose title contains `filter`, ignoring letter case, in their order.
pub fn filter_windows(windows: &Vec<WindowTarget>, filter: &str) -> (r: Vec<WindowTarget>)
    ensures
        r@ == matching_windows(windows@, filter@),
{
    let mut out: Vec<WindowTarget> = Vec::new();
    let n = windows.len();
    let mut i: usize = 0;
    while i < n
        invariant
            i <= n == windows@.len(),
            out@ == matching_windows(windows@.take(i as int), filter@),
        decreases n - i,
    {
        let w = &windows[i];
        assert(windows@.take(i + 1).drop_last() =~= windows@.take(i as int));
        assert(windows@.take(i + 1).last() == *w);
        if matches_ignoring_case(w.title.as_str(), filter) {
            out.push(w.duplicate());
        }
        i = i + 1;
    }
    assert(windows@.take(n as int) =~= windows@);
    out
}

/// How the window to record is settled.
#[derive(Debug, Clone, PartialEq, Eq)]
pub enum TargetChoice {
    /// There is no window at all.
    NoWindows,
    /// Windows exist, but none matches the title filter.
    NoMatch,
    /// Exactly one window matches the filter: it is recorded.
    Selected(WindowTarget),
    /// The user picks among these windows.
    Prompt(Vec<WindowTarget>),
}

/// Settles which window to record: without windows there is nothing to do;
/// without a filter the user picks among all windows; with a filter, no match
/// is reported, a single match is taken, several matches are offered.
pub fn choose_target(windows: &Vec<WindowTarget>, filter: Option<&str>) -> (r: TargetChoice)
    ensures
        windows@.len() == 0 ==> r == TargetChoice::NoWindows,
        windows@.len() > 0 && filter is None ==> (r matches TargetChoice::Prompt(v) && v@
            == windows@),
        windows@.len() > 0 && filter is Some ==> {
            let m = matching_windows(windows@, filter.unwrap()@);
            &&& m.len() == 0 ==> r == TargetChoice::NoMatch
            &&& m.len() == 1 ==> r == TargetChoice::Selected(m[0])
            &&& m.len() > 1 ==> (r matches TargetChoice::Prompt(v) && v@ == m)
        },
{
    if windows.len() == 0 {
        return TargetChoice::NoWindows;
    }
    match filter {
        Some(f) => {
            let mut matches = filter_windows(windows, f);
            if matches.len() == 0 {
                TargetChoice::NoMatch
            } else if matches.len() == 1 {
                TargetChoice::Selected(matches.remove(0))
            } else {
                TargetChoice::Prompt(matches)
            }
        },
        None => {
            let mut all: Vec<WindowTarget> = Vec::new();
            let n = windows.len();
            let mut i: usize = 0;
            while i < n
                invariant
                    i <= n == windows@.len(),
                    all@ == windows@.take(i as int),
                decreases n - i,
            {
                all.push(windows[i].duplicate());
                assert(all@ =~= windows@.take(i + 1));
                i = i + 1;
            }
            assert(windows@.take(n as int) =~= windows@);
            TargetChoice::Prompt(all)
        },
    }
}

// ---------------------------------------------------------------------------
// Picking a window by its number
// ---------------------------------------------------------------------------

/// What the user's answer selects: the trimmed answer must be a number from 1
/// to the number of windows; anything else names no window.
pub open spec fn selection_result(ws: Seq<WindowTarget>, input: Seq<char>) -> Result<
    WindowTarget,
    LoomError,
> {
    match parse_unsigned(trim(input), usize::MAX as nat) {
        Some(k) => if 1 <= k <= ws.len() {
            Ok(ws[k - 1])
        } else {
            Err(LoomError::WindowNotFound)
        },
        None => Err(LoomError::WindowNotFound),
    }
}

/// The window that the answer `input` picks from the numbered list `windows`
/// (numbers start at 1), or `WindowNotFound`.
pub fn select_window(windows: &Vec<WindowTarget>, input: &str) -> (r: Result<WindowTarget, LoomError>)
    ensures
        r == selection_result(windows@, input@),
{
    let chars = chars_of(input);
    let (a, b) = trim_bounds(&chars);
    match parse_unsigned_range(&chars, a, b, usize::MAX as u64) {
        Some(k) => {
            if k == 0 || k > windows.len() as u64 {
                Err(LoomError::WindowNotFound)
            } else {
                let idx = (k - 1) as usize;
                Ok(windows[idx].duplicate())
            }
        },
        None => Err(LoomError::WindowNotFound),
    }
}

/// Typing the number that the list shows for a window, with or without
/// surrounding blanks, selects that window.
pub proof fn law_number_selects_listed_window(ws: Seq<WindowTarget>, k: nat, before: Seq<char>, after: Seq<char>)
    requires
        1 <= k <= ws.len(),
        ws.len() <= usize::MAX,
        forall|i: int| 0 <= i < before.len() ==> #[trigger] crate::text::is_whitespace(before[i]),
        forall|i: int| 0 <= i < after.len() ==> #[trigger] crate::text::is_whitespace(after[i]),
    ensures
        selection_result(ws, before + decimal(k) + after) == Ok::<WindowTarget, LoomError>(ws[k - 1]),
{
    crate::text::lemma_decimal(k);
    let d = decimal(k);
    assert(crate::text::is_ascii_digit(d[0]));
    assert(crate::text::is_ascii_digit(d[d.len() - 1]));
    crate::text::lemma_trim_around(before, d, after);
    crate::text::lemma_parse_decimal(k, usize::MAX as nat);
}

// ---------------------------------------------------------------------------
// Lines of the window list
// ---------------------------------------------------------------------------

/// The line for window number `number` in the plain list: `  [n] title`.
pub open spec fn list_line(number: nat, w: WindowTarget) -> Seq<char> {
    "  ["@ + decimal(number) + "] "@ + w.title@
}

/// The line for window number `number` when asking the user to choose:
/// `  [n] title (WxH at X,Y)`.
pub open spec fn choice_line(number: nat, w: WindowTarget) -> Seq<char> {
    "  ["@ + decimal(number) + "] "@ + w.title@ + " ("@ + decimal(w.width as nat) + "x"@ + decimal(
        w.height as nat,
    ) + " at "@ + signed_decimal(w.x as int) + ","@ + signed_decimal(w.y as int) + ")"@
}

/// The question asked after the list: `Select window [1-n]: `.
pub open spec fn selection_question(count: nat) -> Seq<char> {
    "Select window [1-"@ + decimal(count) + "]: "@
}

/// The line that shows window number `number` in the plain list.
pub fn list_entry_line(number: usize, w: &WindowTarget) -> (r: String)
    ensures
        r@ == list_line(number as nat, *w),
{
    let mut s = String::from_str("  [");
    push_decimal(&mut s, number as u64);
    s.append("] ");
    s.append(w.title.as_str());
    s
}

/// The line that shows window number `number`, with its size and position,
/// when the user is asked to choose.
pub fn choice_entry_line(number: usize, w: &WindowTarget) -> (r: String)
    ensures
        r@ == choice_line(number as nat, *w),
{
    let mut s = String::from_str("  [");
    push_decimal(&mut s, number as u64);
    s.append("] ");
    s.append(w.title.as_str());
    s.append(" (");
    push_decimal(&mut s, w.width as u64);
    s.append("x");
    push_decimal(&mut s, w.height as u64);
    s.append(" at ");
    push_signed(&mut s, w.x);
    s.append(",");
    push_signed(&mut s, w.y);
    s.append(")");
    s
}

/// The question that asks for a window number from 1 to `count`.
pub fn selection_prompt(count: usize) -> (r: String)
    ensures
        r@ == selection_question(count as nat),
{
    let mut s = String::from_str("Select window [1-");
    push_decimal(&mut s, count as u64);
    s.append("]: ");
    s
}

} // verus!
