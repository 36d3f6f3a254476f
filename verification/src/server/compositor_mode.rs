//! Choice of the compositor's output mode for a requested desktop size.

use vstd::prelude::*;

use crate::text::{
    chars_of, contains_text, decimal, decimal_text, find_char, has_text, is_space, is_whitespace,
    lines, parse_unsigned, pieces, range_contains, split_once, unsigned, words,
};

verus! {

/// An output mode.
#[derive(Clone, Copy, Debug, PartialEq, Eq, Structural)]
pub struct Mode {
    pub width: u32,
    pub height: u32,
}

impl Mode {
    /// Number of pixels.
    pub open spec fn pixels(self) -> int {
        self.width * self.height
    }

    /// How far the pixel count is from the requested one.
    pub open spec fn distance(self, requested: int) -> int {
        if self.pixels() >= requested {
            self.pixels() - requested
        } else {
            requested - self.pixels()
        }
    }
}

/// A text without the asterisks and exclamation marks at its end.
pub open spec fn without_marks(s: Seq<char>) -> Seq<char>
    decreases s.len(),
{
    if s.len() > 0 && (s.last() == '*' || s.last() == '!') {
        without_marks(s.drop_last())
    } else {
        s
    }
}

/// The mode that a word of the form `N:WxH@rate`, with marks behind it, names.
pub open spec fn mode_named(word: Seq<char>) -> Option<Mode> {
    match split_once(word, ':') {
        None => None,
        Some((_, after)) => match split_once(without_marks(after), '@') {
            None => None,
            Some((size, _)) => match split_once(size, 'x') {
                None => None,
                Some((w, h)) => match (
                    unsigned(w, u32::MAX as nat),
                    unsigned(h, u32::MAX as nat),
                ) {
                    (Some(width), Some(height)) => Some(
                        Mode { width: width as u32, height: height as u32 },
                    ),
                    _ => None,
                },
            },
        },
    }
}

/// The modes that words name, in order.
pub open spec fn modes_in_words(ws: Seq<Seq<char>>) -> Seq<Mode>
    decreases ws.len(),
{
    if ws.len() == 0 {
        seq![]
    } else {
        match mode_named(ws.last()) {
            Some(m) => modes_in_words(ws.drop_last()).push(m),
            None => modes_in_words(ws.drop_last()),
        }
    }
}

/// The modes that lines with the heading `Modes:` name, in order.
pub open spec fn modes_in_lines(ls: Seq<Seq<char>>) -> Seq<Mode>
    decreases ls.len(),
{
    if ls.len() == 0 {
        seq![]
    } else if contains_text(ls.last(), "Modes:"@) {
        modes_in_lines(ls.drop_last()) + modes_in_words(words(ls.last()))
    } else {
        modes_in_lines(ls.drop_last())
    }
}

/// The mode closest to `requested` pixels. Of equally close ones the first,
/// unless a later one has more pixels than requested.
pub open spec fn closest(modes: Seq<Mode>, requested: int) -> Option<Mode>
    decreases modes.len(),
{
    if modes.len() == 0 {
        None
    } else {
        let m = modes.last();
        match closest(modes.drop_last(), requested) {
            None => Some(m),
            Some(best) => if m.distance(requested) < best.distance(requested) || (m.distance(
                requested,
            ) == best.distance(requested) && m.pixels() > requested) {
                Some(m)
            } else {
                Some(best)
            },
        }
    }
}

/// The mode to switch to: the requested one where it is listed, else the closest
/// listed one, and the requested one where none is listed.
pub open spec fn best_mode(modes: Seq<Mode>, requested: Mode) -> Mode {
    if modes.contains(requested) {
        requested
    } else {
        match closest(modes, requested.pixels()) {
            Some(m) => m,
            None => requested,
        }
    }
}

proof fn lemma_mode_pixels(m: Mode)
    ensures
        0 <= m.pixels() <= u32::MAX * u32::MAX,
{
    assert(0 <= m.width * m.height <= u32::MAX * u32::MAX) by (nonlinear_arith)
        requires
            0 <= m.width <= u32::MAX,
            0 <= m.height <= u32::MAX,
    ;
}

proof fn lemma_without_marks_prefix(s: Seq<char>, n: int)
    requires
        0 <= n <= s.len(),
        forall|k: int| n <= k < s.len() ==> s[k] == '*' || s[k] == '!',
        n > 0 ==> s[n - 1] != '*' && s[n - 1] != '!',
    ensures
        without_marks(s) == s.take(n),
    decreases s.len(),
{
    if n < s.len() {
        assert(s.drop_last().take(n) =~= s.take(n));
        lemma_without_marks_prefix(s.drop_last(), n);
    } else {
        assert(s.take(n) =~= s);
    }
}

/// Reads `chars[from .. to]` as a mode.
fn parse_mode(chars: &Vec<char>, from: usize, to: usize) -> (r: Option<Mode>)
    requires
        from <= to <= chars@.len(),
    ensures
        r == mode_named(chars@.subrange(from as int, to as int)),
{
    let ghost word = chars@.subrange(from as int, to as int);
    let colon: usize = find_char(chars, from, to, ':');
    if colon == to {
        return None;
    }
    let start: usize = colon + 1;
    let ghost after = chars@.subrange(start as int, to as int);
    assert(word.skip(colon - from + 1) =~= after);
    let mut end: usize = to;
    while end > start && (chars[end - 1] == '*' || chars[end - 1] == '!')
        invariant
            start <= end <= to <= chars@.len(),
            after == chars@.subrange(start as int, to as int),
            forall|k: int| end - start <= k < after.len() ==> after[k] == '*' || after[k] == '!',
        decreases end,
    {
        assert(after[end - 1 - start] == chars@[end - 1]);
        end = end - 1;
    }
    let ghost mode = chars@.subrange(start as int, end as int);
    proof {
        if end > start {
            assert(after[end - 1 - start] == chars@[end - 1]);
        }
        lemma_without_marks_prefix(after, end - start);
        assert(after.take(end - start) =~= mode);
    }
    let at: usize = find_char(chars, start, end, '@');
    if at == end {
        return None;
    }
    let ghost size = chars@.subrange(start as int, at as int);
    assert(mode.take(at - start) =~= size);
    let x: usize = find_char(chars, start, at, 'x');
    if x == at {
        return None;
    }
    assert(size.take(x - start) =~= chars@.subrange(start as int, x as int));
    assert(size.skip(x - start + 1) =~= chars@.subrange(x as int + 1, at as int));
    let width: u64 = match parse_unsigned(chars, start, x, u32::MAX as u64) {
        Some(n) => n,
        None => {
            return None;
        },
    };
    let height: u64 = match parse_unsigned(chars, x + 1, at, u32::MAX as u64) {
        Some(n) => n,
        None => {
            return None;
        },
    };
    Some(Mode { width: width as u32, height: height as u32 })
}

/// Appends the modes that the words of `chars[from .. to]` name.
fn collect_words(chars: &Vec<char>, from: usize, to: usize, out: &mut Vec<Mode>)
    requires
        from <= to <= chars@.len(),
    ensures
        final(out)@ == old(out)@ + modes_in_words(words(chars@.subrange(from as int, to as int))),
{
    let ghost s = chars@.subrange(from as int, to as int);
    let ghost sep = |c: char| is_space(c);
    let ghost before = out@;
    let mut start: usize = from;
    let mut i: usize = from;
    assert(s.take(0) =~= Seq::<char>::empty());
    assert(chars@.subrange(from as int, from as int) =~= Seq::<char>::empty());
    assert(pieces(s.take(0), sep).drop_last() =~= Seq::<Seq<char>>::empty());
    while i < to
        invariant
            from <= start <= i <= to <= chars@.len(),
            s == chars@.subrange(from as int, to as int),
            sep == (|c: char| is_space(c)),
            pieces(s.take(i - from), sep).len() >= 1,
            pieces(s.take(i - from), sep).last() == chars@.subrange(start as int, i as int),
            out@ == before + modes_in_words(pieces(s.take(i - from), sep).drop_last()),
        decreases to - i,
    {
        let c: char = chars[i];
        let ghost ps = pieces(s.take(i - from), sep);
        let ghost next = pieces(s.take(i + 1 - from), sep);
        assert(s.take(i + 1 - from).drop_last() =~= s.take(i - from));
        assert(s.take(i + 1 - from).last() == c);
        if is_whitespace(c) {
            assert(next == ps.push(seq![]));
            assert(next.drop_last() =~= ps);
            match parse_mode(chars, start, i) {
                Some(m) => {
                    out.push(m);
                },
                None => {},
            }
            start = i + 1;
            assert(chars@.subrange(i + 1, i + 1) =~= Seq::<char>::empty());
            assert(out@ =~= before + modes_in_words(ps));
        } else {
            assert(next.drop_last() =~= ps.drop_last());
            assert(next.last() == ps.last().push(c));
            assert(ps.last().push(c) =~= chars@.subrange(start as int, i + 1));
        }
        i = i + 1;
    }
    assert(s.take(to - from) =~= s);
    match parse_mode(chars, start, to) {
        Some(m) => {
            out.push(m);
        },
        None => {},
    }
    assert(out@ =~= before + modes_in_words(pieces(s, sep)));
}

/// The modes that a listing names.
fn collect_modes(text: &str) -> (out: Vec<Mode>)
    ensures
        out@ == modes_in_lines(lines(text@)),
{
    let chars = chars_of(text);
    let heading = chars_of("Modes:");
    let n: usize = chars.len();
    let ghost s = text@;
    let ghost sep = |c: char| c == '\n';
    let mut out: Vec<Mode> = Vec::new();
    let mut start: usize = 0;
    let mut i: usize = 0;
    assert(s.take(0) =~= Seq::<char>::empty());
    assert(chars@.subrange(0, 0) =~= Seq::<char>::empty());
    assert(pieces(s.take(0), sep).drop_last() =~= Seq::<Seq<char>>::empty());
    while i < n
        invariant
            0 <= start <= i <= n,
            n == chars@.len(),
            chars@ == s,
            heading@ == "Modes:"@,
            sep == (|c: char| c == '\n'),
            pieces(s.take(i as int), sep).len() >= 1,
            pieces(s.take(i as int), sep).last() == chars@.subrange(start as int, i as int),
            out@ == modes_in_lines(pieces(s.take(i as int), sep).drop_last()),
        decreases n - i,
    {
        let c: char = chars[i];
        let ghost ps = pieces(s.take(i as int), sep);
        let ghost next = pieces(s.take(i + 1), sep);
        assert(s.take(i + 1).drop_last() =~= s.take(i as int));
        assert(s.take(i + 1).last() == c);
        if c == '\n' {
            assert(next == ps.push(seq![]));
            assert(next.drop_last() =~= ps);
            if range_contains(&chars, start, i, &heading) {
                collect_words(&chars, start, i, &mut out);
            }
            start = i + 1;
            assert(chars@.subrange(i + 1, i + 1) =~= Seq::<char>::empty());
        } else {
            assert(next.drop_last() =~= ps.drop_last());
            assert(next.last() == ps.last().push(c));
            assert(ps.last().push(c) =~= chars@.subrange(start as int, i + 1));
        }
        i = i + 1;
    }
    assert(s.take(n as int) =~= s);
    if range_contains(&chars, start, n, &heading) {
        collect_words(&chars, start, n, &mut out);
    }
    out
}

/// Finds the requested size among the listed modes, or else the listed mode closest
/// to it by pixel count. Where no mode is listed, it is the requested size.
pub fn find_best_mode(kscreen_output: &str, req_w: u32, req_h: u32) -> (r: (u32, u32))
    ensures
        (Mode { width: r.0, height: r.1 }) == best_mode(
            modes_in_lines(lines(kscreen_output@)),
            Mode { width: req_w, height: req_h },
        ),
{
    let modes = collect_modes(kscreen_output);
    let requested = Mode { width: req_w, height: req_h };
    proof {
        lemma_mode_pixels(requested);
    }
    let req_pixels: u64 = req_w as u64 * req_h as u64;
    let mut best: Option<Mode> = None;
    let mut best_diff: u64 = 0;
    let mut i: usize = 0;
    while i < modes.len()
        invariant
            0 <= i <= modes@.len(),
            req_pixels == req_w * req_h,
            best == closest(modes@.take(i as int), req_pixels as int),
            best is Some ==> best_diff == best->0.distance(req_pixels as int),
            modes@ == modes_in_lines(lines(kscreen_output@)),
            requested == (Mode { width: req_w, height: req_h }),
            forall|k: int| 0 <= k < i ==> modes@[k] != requested,
        decreases modes@.len() - i,
    {
        let m = modes[i];
        if m.width == req_w && m.height == req_h {
            assert(modes@[i as int] == requested);
            return (req_w, req_h);
        }
        proof {
            lemma_mode_pixels(m);
            assert(modes@.take(i + 1).drop_last() =~= modes@.take(i as int));
        }
        let pixels: u64 = m.width as u64 * m.height as u64;
        let diff: u64 = if pixels >= req_pixels { pixels - req_pixels } else { req_pixels - pixels
        };
        if best.is_none() || diff < best_diff || (diff == best_diff && pixels > req_pixels) {
            best = Some(m);
            best_diff = diff;
        }
        i = i + 1;
    }
    assert(modes@.take(i as int) =~= modes@);
    match best {
        Some(m) => (m.width, m.height),
        None => (req_w, req_h),
    }
}

/// A requested mode that is listed is taken. Otherwise the chosen mode is as close to
/// the request as any listed one, and of two equally close ones a larger one is
/// preferred.
pub proof fn law_closest_mode(modes: Seq<Mode>, requested: Mode, i: int)
    requires
        0 <= i < modes.len(),
    ensures
        modes.contains(requested) ==> best_mode(modes, requested) == requested,
        modes.contains(best_mode(modes, requested)),
        best_mode(modes, requested).distance(requested.pixels()) <= modes[i].distance(
            requested.pixels(),
        ),
        !modes.contains(requested) && best_mode(modes, requested).distance(requested.pixels())
            == modes[i].distance(requested.pixels()) && modes[i].pixels() > requested.pixels()
            ==> best_mode(modes, requested).pixels() == modes[i].pixels(),
{
    lemma_closest(modes, requested.pixels(), i);
}

proof fn lemma_closest(modes: Seq<Mode>, requested: int, i: int)
    requires
        0 <= i < modes.len(),
    ensures
        closest(modes, requested) is Some,
        modes.contains(closest(modes, requested)->0),
        closest(modes, requested)->0.distance(requested) <= modes[i].distance(requested),
        closest(modes, requested)->0.distance(requested) == modes[i].distance(requested)
            && modes[i].pixels() > requested ==> closest(modes, requested)->0.pixels()
            == modes[i].pixels(),
    decreases modes.len(),
{
    let init = modes.drop_last();
    assert(modes[modes.len() - 1] == modes.last());
    if init.len() > 0 {
        let j = if i < init.len() {
            i
        } else {
            0
        };
        lemma_closest(init, requested, j);
        let k = choose|k: int| 0 <= k < init.len() && init[k] == closest(init, requested)->0;
        assert(modes[k] == init[k]);
        assert(init[j] == modes[j]);
    }
}

/// Whether the desktop is KDE.
pub fn is_kde_desktop(xdg_current_desktop: &str, kde_full_session_set: bool) -> (r: bool)
    ensures
        r == (contains_text(xdg_current_desktop@, "KDE"@) || kde_full_session_set),
{
    has_text(xdg_current_desktop, "KDE") || kde_full_session_set
}

/// What to do about the compositor's output mode.
#[derive(Clone, Copy, Debug, PartialEq, Eq, Structural)]
pub enum ModeChange {
    /// Leave it: the compositor captures at any size.
    Keep,
    /// Switch to this mode.
    Switch(Mode),
}

/// Plans the change of the output mode for a requested desktop size.
///
/// `listing` is what the mode tool printed, if it could be run.
pub fn plan_mode_change(is_kde: bool, listing: Option<&str>, width: u16, height: u16) -> (r:
    ModeChange)
    ensures
        !is_kde ==> r == ModeChange::Keep,
        is_kde ==> r == ModeChange::Switch(
            match listing {
                None => Mode { width: width as u32, height: height as u32 },
                Some(text) => best_mode(
                    modes_in_lines(lines(text@)),
                    Mode { width: width as u32, height: height as u32 },
                ),
            },
        ),
{
    if !is_kde {
        return ModeChange::Keep;
    }
    match listing {
        None => ModeChange::Switch(Mode { width: width as u32, height: height as u32 }),
        Some(text) => {
            let (w, h) = find_best_mode(text, width as u32, height as u32);
            ModeChange::Switch(Mode { width: w, height: h })
        },
    }
}

/// The argument that switches the first output to a mode.
pub fn mode_argument(mode: Mode) -> (r: String)
    ensures
        r@ == "output.1.mode."@ + decimal(mode.width as nat) + "x"@ + decimal(mode.height as nat)
            + "@60"@,
{
    let mut r = "output.1.mode.".to_owned();
    r.append(decimal_text(mode.width as u64).as_str());
    r.append("x");
    r.append(decimal_text(mode.height as u64).as_str());
    r.append("@60");
    r
}

/// Whether the mode tool switched: it can succeed by its status and still say
/// that the mode was not found.
pub fn mode_switched(output: &str, status_ok: bool) -> (r: bool)
    ensures
        r == (status_ok && !contains_text(output@, "not found"@)),
{
    status_ok && !has_text(output, "not found")
}

/// How far a mode is off is how many pixels it has too many or too few.
pub proof fn law_distance(m: Mode, requested: int)
    ensures
        m.distance(requested) == m.width * m.height - requested || m.distance(requested)
            == requested - m.width * m.height,
        m.distance(requested) >= 0,
        m.pixels() == m.width * m.height,
{
}

/// A mode is not preferred to one that stands before it.
pub open spec fn yields_to(later: Mode, earlier: Mode, requested: int) -> bool {
    later.distance(requested) > earlier.distance(requested) || (later.distance(requested)
        == earlier.distance(requested) && later.pixels() <= requested)
}

proof fn lemma_choice(modes: Seq<Mode>, requested: int) -> (k: int)
    requires
        modes.len() > 0,
    ensures
        0 <= k < modes.len(),
        closest(modes, requested) == Some(modes[k]),
        forall|j: int| 0 <= j < k ==> !yields_to(modes[k], #[trigger] modes[j], requested),
        forall|j: int|
            k < j < modes.len() ==> yields_to(#[trigger] modes[j], modes[k], requested),
    decreases modes.len(),
{
    let init = modes.drop_last();
    let last = modes.len() - 1;
    if init.len() == 0 {
        0
    } else {
        let k = lemma_choice(init, requested);
        assert(modes[k] == init[k]);
        if yields_to(modes[last], modes[k], requested) {
            assert forall|j: int| 0 <= j < k implies !yields_to(
                modes[k],
                #[trigger] modes[j],
                requested,
            ) by {
                assert(modes[j] == init[j]);
            }
            assert forall|j: int| k < j < modes.len() implies yields_to(
                #[trigger] modes[j],
                modes[k],
                requested,
            ) by {
                if j < last {
                    assert(modes[j] == init[j]);
                }
            }
            k
        } else {
            assert forall|j: int| 0 <= j < last implies !yields_to(
                modes[last],
                #[trigger] modes[j],
                requested,
            ) by {
                assert(modes[j] == init[j]);
                lemma_closest(init, requested, j);
            }
            last
        }
    }
}

/// The chosen mode is further from the request than none before it, and none behind it is
/// closer. Of equally close modes it is the first, but one with more pixels than requested
/// is preferred to those before it.
pub proof fn law_first_or_larger(modes: Seq<Mode>, requested: int)
    requires
        modes.len() > 0,
    ensures
        exists|k: int|
            #![trigger modes[k]]
            0 <= k < modes.len() && closest(modes, requested) == Some(modes[k]) && (forall|j: int|
                0 <= j < k ==> modes[k].distance(requested) < (#[trigger] modes[j]).distance(
                    requested,
                ) || (modes[k].distance(requested) == modes[j].distance(requested)
                    && modes[k].pixels() > requested)) && (forall|j: int|
                k < j < modes.len() ==> modes[k].distance(requested) < (
                #[trigger] modes[j]).distance(requested) || (modes[k].distance(requested)
                    == modes[j].distance(requested) && modes[j].pixels() <= requested)),
{
    let k = lemma_choice(modes, requested);
    assert forall|j: int| 0 <= j < k implies modes[k].distance(requested) < (
    #[trigger] modes[j]).distance(requested) || (modes[k].distance(requested)
        == modes[j].distance(requested) && modes[k].pixels() > requested) by {
        assert(!yields_to(modes[k], modes[j], requested));
    }
    assert forall|j: int| k < j < modes.len() implies modes[k].distance(requested) < (
    #[trigger] modes[j]).distance(requested) || (modes[k].distance(requested)
        == modes[j].distance(requested) && modes[j].pixels() <= requested) by {
        assert(yields_to(modes[j], modes[k], requested));
    }
}

/// Marks are taken off the end, all of them, and nothing else is.
pub proof fn law_marks_are_taken_off(s: Seq<char>, c: char, rest: Seq<char>)
    requires
        c != '*',
        c != '!',
    ensures
        without_marks(s.push('*')) == without_marks(s),
        without_marks(s.push('!')) == without_marks(s),
        without_marks(s.push(c)) == s.push(c),
        without_marks(s.push(c) + rest) == s.push(c) + without_marks(rest),
        without_marks(Seq::<char>::empty()) == Seq::<char>::empty(),
    decreases rest.len(),
{
    assert(s.push('*').drop_last() =~= s);
    assert(s.push('!').drop_last() =~= s);
    let all = s.push(c) + rest;
    if rest.len() == 0 {
        assert(all =~= s.push(c));
        assert(s.push(c) + without_marks(rest) =~= s.push(c));
    } else {
        assert(all.last() == rest.last());
        assert(all.drop_last() =~= s.push(c) + rest.drop_last());
        law_marks_are_taken_off(s, c, rest.drop_last());
    }
}

proof fn lemma_digits_hold_no(n: nat, c: char)
    requires
        !('0' <= c <= '9'),
    ensures
        !decimal(n).contains(c),
{
    crate::text::law_decimal_form(n);
}

/// A mode is read from a word that names it: a number and a colon, its width and height
/// with an `x` between them, and behind an `@` a rate, marks or none.
pub proof fn law_mode_is_read(index: Seq<char>, width: u32, height: u32, rate: Seq<char>)
    requires
        !index.contains(':'),
    ensures
        mode_named(
            index.push(':') + (decimal(width as nat).push('x') + decimal(height as nat)).push('@')
                + rate,
        ) == Some(Mode { width, height }),
        mode_named(index) is None,
{
    let w = decimal(width as nat);
    let h = decimal(height as nat);
    let size = w.push('x') + h;
    let after = size.push('@') + rate;
    lemma_digits_hold_no(width as nat, 'x');
    lemma_digits_hold_no(width as nat, '@');
    lemma_digits_hold_no(height as nat, '@');
    assert forall|k: int| 0 <= k < size.len() implies size[k] != '@' by {
        if k < w.len() {
            assert(w.contains(w[k]));
        } else if k > w.len() {
            assert(h.contains(h[k - w.len() - 1]));
        }
    }
    assert(index.push(':') + size.push('@') + rate =~= index.push(':') + after);
    crate::text::law_split_once(index, ':', after);
    law_marks_are_taken_off(size, '@', rate);
    crate::text::law_split_once(size, '@', without_marks(rate));
    crate::text::law_split_once(w, 'x', h);
    crate::text::law_decimal_reads_back(width as nat, u32::MAX as nat);
    crate::text::law_decimal_reads_back(height as nat, u32::MAX as nat);
}

/// Modes are listed in the order of their words, in lines that have the heading.
pub proof fn law_modes_are_listed_in_order(
    ws: Seq<Seq<char>>,
    word: Seq<char>,
    ls: Seq<Seq<char>>,
    line: Seq<char>,
)
    ensures
        modes_in_words(Seq::<Seq<char>>::empty()).len() == 0,
        mode_named(word) is Some ==> modes_in_words(ws.push(word)) == modes_in_words(ws).push(
            mode_named(word)->0,
        ),
        mode_named(word) is None ==> modes_in_words(ws.push(word)) == modes_in_words(ws),
        modes_in_lines(Seq::<Seq<char>>::empty()).len() == 0,
        contains_text(line, "Modes:"@) ==> modes_in_lines(ls.push(line)) == modes_in_lines(ls)
            + modes_in_words(words(line)),
        !contains_text(line, "Modes:"@) ==> modes_in_lines(ls.push(line)) == modes_in_lines(ls),
{
    assert(ws.push(word).drop_last() =~= ws);
    assert(ls.push(line).drop_last() =~= ls);
}

} // verus!
