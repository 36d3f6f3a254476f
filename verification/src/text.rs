//! Small text helpers: comparison, concatenation, decimal numbers, splitting.

use vstd::prelude::*;

verus! {

/// Whether two texts are equal, character for character.
pub fn same_text(a: &str, b: &str) -> (r: bool)
    ensures
        r == (a@ == b@),
{
    a.to_owned() == b.to_owned()
}

/// The characters of a text, in order.
pub fn chars_of(s: &str) -> (v: Vec<char>)
    ensures
        v@ == s@,
{
    let mut v: Vec<char> = Vec::new();
    for c in it: s.chars()
        invariant
            v@ == it.seq().take(it.index() as int),
            it.seq() == s@,
    {
        v.push(c);
    }
    v
}

/// `a` followed by `b`.
pub fn join2(a: &str, b: &str) -> (r: String)
    ensures
        r@ == a@ + b@,
{
    let mut r = a.to_owned();
    r.append(b);
    r
}

/// `a`, then `b`, then `c`.
pub fn join3(a: &str, b: &str, c: &str) -> (r: String)
    ensures
        r@ == a@ + b@ + c@,
{
    let mut r = a.to_owned();
    r.append(b);
    r.append(c);
    r
}

/// The decimal digit for `d`.
pub open spec fn digit(d: int) -> char {
    if d == 0 {
        '0'
    } else if d == 1 {
        '1'
    } else if d == 2 {
        '2'
    } else if d == 3 {
        '3'
    } else if d == 4 {
        '4'
    } else if d == 5 {
        '5'
    } else if d == 6 {
        '6'
    } else if d == 7 {
        '7'
    } else if d == 8 {
        '8'
    } else {
        '9'
    }
}

/// A number written in base ten, without leading zeros.
pub open spec fn decimal(n: nat) -> Seq<char>
    decreases n,
{
    if n < 10 {
        seq![digit(n as int)]
    } else {
        decimal(n / 10).push(digit((n % 10) as int))
    }
}

fn digit_text(d: u64) -> (r: &'static str)
    requires
        d < 10,
    ensures
        r@ == seq![digit(d as int)],
{
    proof {
        reveal_strlit("0");
        reveal_strlit("1");
        reveal_strlit("2");
        reveal_strlit("3");
        reveal_strlit("4");
        reveal_strlit("5");
        reveal_strlit("6");
        reveal_strlit("7");
        reveal_strlit("8");
        reveal_strlit("9");
    }
    let r = if d == 0 {
        "0"
    } else if d == 1 {
        "1"
    } else if d == 2 {
        "2"
    } else if d == 3 {
        "3"
    } else if d == 4 {
        "4"
    } else if d == 5 {
        "5"
    } else if d == 6 {
        "6"
    } else if d == 7 {
        "7"
    } else if d == 8 {
        "8"
    } else {
        "9"
    };
    assert(r@ =~= seq![digit(d as int)]);
    r
}

/// Writes `n` in base ten.
pub fn decimal_text(n: u64) -> (r: String)
    ensures
        r@ == decimal(n as nat),
    decreases n,
{
    if n < 10 {
        digit_text(n).to_owned()
    } else {
        let mut r = decimal_text(n / 10);
        r.append(digit_text(n % 10));
        assert(r@ =~= decimal(n as nat));
        r
    }
}

/// Every character is a decimal digit.
pub open spec fn all_digits(s: Seq<char>) -> bool {
    forall|i: int| 0 <= i < s.len() ==> '0' <= #[trigger] s[i] <= '9'
}

/// The number that a run of digits denotes.
pub open spec fn number(s: Seq<char>) -> nat
    decreases s.len(),
{
    if s.len() == 0 {
        0
    } else {
        number(s.drop_last()) * 10 + (s.last() as nat - 48) as nat
    }
}

/// What a text denotes when read as an unsigned number of at most `max`: an
/// optional plus sign followed by one or more digits.
pub open spec fn unsigned(s: Seq<char>, max: nat) -> Option<nat> {
    let digits = if s.len() > 0 && s[0] == '+' {
        s.skip(1)
    } else {
        s
    };
    if digits.len() > 0 && all_digits(digits) && number(digits) <= max {
        Some(number(digits))
    } else {
        None
    }
}

proof fn lemma_number_grows(s: Seq<char>, i: int)
    requires
        0 <= i <= s.len(),
        all_digits(s),
    ensures
        number(s.take(i)) <= number(s),
    decreases s.len() - i,
{
    if i < s.len() {
        lemma_number_grows(s, i + 1);
        assert(s.take(i + 1).drop_last() =~= s.take(i));
        assert('0' <= s[i] <= '9');
    } else {
        assert(s.take(i) =~= s);
    }
}

/// Reads `chars[from .. to]` as an unsigned number of at most `max`.
pub fn parse_unsigned(chars: &Vec<char>, from: usize, to: usize, max: u64) -> (r: Option<u64>)
    requires
        from <= to <= chars@.len(),
    ensures
        match r {
            Some(n) => unsigned(chars@.subrange(from as int, to as int), max as nat) == Some(
                n as nat,
            ),
            None => unsigned(chars@.subrange(from as int, to as int), max as nat) is None,
        },
{
    let ghost s = chars@.subrange(from as int, to as int);
    let start: usize = if from < to && chars[from] == '+' { from + 1 } else { from };
    let ghost digits = chars@.subrange(start as int, to as int);
    assert(s.len() > 0 && s[0] == '+' ==> s.skip(1) =~= digits);
    assert(!(s.len() > 0 && s[0] == '+') ==> s =~= digits);
    if start == to {
        return None;
    }
    let mut n: u64 = 0;
    let mut i: usize = start;
    while i < to
        invariant
            start <= i <= to <= chars@.len(),
            digits == chars@.subrange(start as int, to as int),
            forall|k: int| 0 <= k < i - start ==> '0' <= #[trigger] digits[k] <= '9',
            n == number(digits.take(i - start)),
            n <= max,
            digits.len() > 0,
            s == chars@.subrange(from as int, to as int),
            unsigned(s, max as nat) == (if all_digits(digits) && number(digits) <= max {
                Some(number(digits))
            } else {
                None
            }),
        decreases to - i,
    {
        let c: char = chars[i];
        assert(digits[i - start] == c);
        if c < '0' || c > '9' {
            return None;
        }
        let d: u64 = c as u64 - 48;
        assert(digits.take(i + 1 - start).drop_last() =~= digits.take(i - start));
        assert(number(digits.take(i + 1 - start)) == n * 10 + d);
        if d > max || n > max / 10 || n * 10 > max - d {
            proof {
                assert(n * 10 + d > max);
                if all_digits(digits) {
                    lemma_number_grows(digits, i + 1 - start);
                }
            }
            return None;
        }
        n = n * 10 + d;
        i = i + 1;
    }
    assert(digits.take(to - start) =~= digits);
    Some(n)
}

/// Reading back what [`decimal_text`] wrote gives the number again.
pub proof fn law_decimal_reads_back(n: nat, max: nat)
    requires
        n <= max,
    ensures
        unsigned(decimal(n), max) == Some(n),
{
    lemma_decimal(n);
    assert(decimal(n)[0] != '+');
}

proof fn lemma_decimal(n: nat)
    ensures
        decimal(n).len() > 0,
        all_digits(decimal(n)),
        number(decimal(n)) == n,
    decreases n,
{
    if n < 10 {
        assert(decimal(n).drop_last() =~= Seq::<char>::empty());
        assert(number(Seq::<char>::empty()) == 0);
    } else {
        lemma_decimal(n / 10);
        assert(decimal(n).drop_last() =~= decimal(n / 10));
    }
}

/// The pieces of a text between the characters that `sep` picks.
pub open spec fn pieces(s: Seq<char>, sep: spec_fn(char) -> bool) -> Seq<Seq<char>>
    decreases s.len(),
{
    if s.len() == 0 {
        seq![seq![]]
    } else {
        let before = pieces(s.drop_last(), sep);
        if sep(s.last()) {
            before.push(seq![])
        } else {
            before.update(before.len() - 1, before.last().push(s.last()))
        }
    }
}

/// The character is white space.
pub open spec fn is_space(c: char) -> bool {
    let n = c as u32;
    0x9 <= n <= 0xd || n == 0x20 || n == 0x85 || n == 0xa0 || n == 0x1680 || 0x2000 <= n <= 0x200a
        || n == 0x2028 || n == 0x2029 || n == 0x202f || n == 0x205f || n == 0x3000
}

/// Whether a character is white space.
pub fn is_whitespace(c: char) -> (r: bool)
    ensures
        r == is_space(c),
{
    let n: u32 = c as u32;
    0x9 <= n && n <= 0xd || n == 0x20 || n == 0x85 || n == 0xa0 || n == 0x1680 || 0x2000 <= n && n
        <= 0x200a || n == 0x2028 || n == 0x2029 || n == 0x202f || n == 0x205f || n == 0x3000
}

/// Splits at every line feed.
pub open spec fn lines(s: Seq<char>) -> Seq<Seq<char>> {
    pieces(s, |c: char| c == '\n')
}

/// Splits at every white space character; pieces may be empty.
pub open spec fn words(s: Seq<char>) -> Seq<Seq<char>> {
    pieces(s, |c: char| is_space(c))
}

/// `pat` occurs in `s` at position `i`.
pub open spec fn occurs_at(s: Seq<char>, pat: Seq<char>, i: int) -> bool {
    0 <= i && i + pat.len() <= s.len() && s.subrange(i, i + pat.len()) == pat
}

/// `pat` occurs in `s`.
pub open spec fn contains_text(s: Seq<char>, pat: Seq<char>) -> bool {
    exists|i: int| occurs_at(s, pat, i)
}

/// Whether `chars[from .. to]` contains `pat`.
pub fn range_contains(chars: &Vec<char>, from: usize, to: usize, pat: &Vec<char>) -> (r: bool)
    requires
        from <= to <= chars@.len(),
    ensures
        r == contains_text(chars@.subrange(from as int, to as int), pat@),
{
    let ghost s = chars@.subrange(from as int, to as int);
    let n: usize = pat.len();
    let mut i: usize = from;
    while to - i >= n
        invariant
            from <= i <= to <= chars@.len(),
            n == pat@.len(),
            s == chars@.subrange(from as int, to as int),
            forall|k: int| 0 <= k < i - from ==> !occurs_at(s, pat@, k),
        decreases to - i,
    {
        let mut j: usize = 0;
        while j < n && chars[i + j] == pat[j]
            invariant
                0 <= j <= n,
                n == pat@.len(),
                n <= to - i,
                from <= i <= to <= chars@.len(),
                forall|k: int| 0 <= k < j ==> chars@[i + k] == #[trigger] pat@[k],
            decreases n - j,
        {
            j = j + 1;
        }
        if j == n {
            assert(s.subrange(i - from, i - from + n) =~= pat@);
            assert(occurs_at(s, pat@, i - from));
            return true;
        }
        proof {
            let here = s.subrange(i - from, i - from + n);
            assert(here[j as int] == chars@[i + j]);
            assert(here[j as int] != pat@[j as int]);
        }
        if i == to {
            assert forall|k: int| !occurs_at(s, pat@, k) by {
                if occurs_at(s, pat@, k) {
                    assert(k < i - from || k == i - from);
                }
            }
            return false;
        }
        i = i + 1;
    }
    false
}

/// Whether `text` contains `pat`.
pub fn has_text(text: &str, pat: &str) -> (r: bool)
    ensures
        r == contains_text(text@, pat@),
{
    let chars = chars_of(text);
    let wanted = chars_of(pat);
    let n: usize = chars.len();
    assert(chars@.subrange(0, n as int) =~= text@);
    range_contains(&chars, 0, n, &wanted)
}

/// The first position of `c` in `s`, or the length of `s` where there is none.
pub open spec fn first_at(s: Seq<char>, c: char) -> int
    decreases s.len(),
{
    if s.len() == 0 || s[0] == c {
        0
    } else {
        1 + first_at(s.skip(1), c)
    }
}

proof fn lemma_first_at(s: Seq<char>, c: char, i: int)
    requires
        0 <= i <= s.len(),
        forall|k: int| 0 <= k < i ==> s[k] != c,
        i < s.len() ==> s[i] == c,
    ensures
        first_at(s, c) == i,
    decreases s.len(),
{
    if i > 0 {
        assert(forall|k: int| 0 <= k < i - 1 ==> s.skip(1)[k] == s[k + 1]);
        lemma_first_at(s.skip(1), c, i - 1);
    }
}

/// The position in `chars` of the first `c` in `chars[from .. to]`, or `to`.
pub fn find_char(chars: &Vec<char>, from: usize, to: usize, c: char) -> (r: usize)
    requires
        from <= to <= chars@.len(),
    ensures
        from <= r <= to,
        r - from == first_at(chars@.subrange(from as int, to as int), c),
        r < to ==> chars@[r as int] == c,
{
    let ghost s = chars@.subrange(from as int, to as int);
    let mut i: usize = from;
    while i < to && chars[i] != c
        invariant
            from <= i <= to <= chars@.len(),
            s == chars@.subrange(from as int, to as int),
            forall|k: int| 0 <= k < i - from ==> s[k] != c,
        decreases to - i,
    {
        assert(s[i - from] == chars@[i as int]);
        i = i + 1;
    }
    proof {
        if i < to {
            assert(s[i - from] == chars@[i as int]);
        }
        lemma_first_at(s, c, i - from);
    }
    i
}

/// Splits at the first `c`: what stands before and behind it.
pub open spec fn split_once(s: Seq<char>, c: char) -> Option<(Seq<char>, Seq<char>)> {
    let i = first_at(s, c);
    if i < s.len() {
        Some((s.take(i), s.skip(i + 1)))
    } else {
        None
    }
}

/// What `str::to_lowercase` makes of a text.
pub uninterp spec fn lowercase_of(s: Seq<char>) -> Seq<char>;

/// Calls `str::to_lowercase`. The claim: the result depends on the text alone. What
/// it is follows the tables of Unicode, which are not written out here.
#[verifier::external_body]
pub(crate) fn to_lowercase(s: &str) -> (r: String)
    ensures
        r@ == lowercase_of(s@),
{
    s.to_lowercase()
}

/// What a text is split at.
#[derive(Clone, Copy, Debug, PartialEq, Eq, Structural)]
pub enum Separator {
    Char(char),
    Space,
}

impl Separator {
    pub open spec fn splits(self, c: char) -> bool {
        match self {
            Separator::Char(s) => c == s,
            Separator::Space => is_space(c),
        }
    }

    fn is(&self, c: char) -> (r: bool)
        ensures
            r == self.splits(c),
    {
        match self {
            Separator::Char(s) => c == *s,
            Separator::Space => is_whitespace(c),
        }
    }
}

/// The pieces of a text between its separators; pieces may be empty.
pub open spec fn split(s: Seq<char>, sep: Separator) -> Seq<Seq<char>> {
    pieces(s, |c: char| sep.splits(c))
}

/// A text has one piece more than separators.
pub proof fn lemma_split_not_empty(s: Seq<char>, sep: Separator)
    ensures
        split(s, sep).len() >= 1,
    decreases s.len(),
{
    if s.len() > 0 {
        lemma_split_not_empty(s.drop_last(), sep);
    }
}

/// Where in `chars` the pieces of `chars[from .. to]` stand.
pub fn split_ranges(chars: &Vec<char>, from: usize, to: usize, sep: Separator) -> (r: Vec<
    (usize, usize),
>)
    requires
        from <= to <= chars@.len(),
    ensures
        r@.len() == split(chars@.subrange(from as int, to as int), sep).len(),
        forall|k: int|
            0 <= k < r@.len() ==> {
                &&& from <= (#[trigger] r@[k]).0 <= r@[k].1 <= to
                &&& chars@.subrange(r@[k].0 as int, r@[k].1 as int) == split(
                    chars@.subrange(from as int, to as int),
                    sep,
                )[k]
            },
{
    let ghost s = chars@.subrange(from as int, to as int);
    let mut r: Vec<(usize, usize)> = Vec::new();
    let mut start: usize = from;
    let mut i: usize = from;
    proof {
        assert(s.take(0) =~= Seq::<char>::empty());
        assert(chars@.subrange(from as int, from as int) =~= Seq::<char>::empty());
    }
    while i < to
        invariant
            from <= start <= i <= to <= chars@.len(),
            s == chars@.subrange(from as int, to as int),
            split(s.take(i - from), sep).len() == r@.len() + 1,
            split(s.take(i - from), sep).last() == chars@.subrange(start as int, i as int),
            forall|k: int|
                0 <= k < r@.len() ==> {
                    &&& from <= (#[trigger] r@[k]).0 <= r@[k].1 <= to
                    &&& chars@.subrange(r@[k].0 as int, r@[k].1 as int) == split(
                        s.take(i - from),
                        sep,
                    )[k]
                },
        decreases to - i,
    {
        let c: char = chars[i];
        let ghost ps = split(s.take(i - from), sep);
        let ghost next = split(s.take(i + 1 - from), sep);
        assert(s.take(i + 1 - from).drop_last() =~= s.take(i - from));
        assert(s.take(i + 1 - from).last() == c);
        if sep.is(c) {
            assert(next == ps.push(seq![]));
            r.push((start, i));
            start = i + 1;
            assert(chars@.subrange(i + 1, i + 1) =~= Seq::<char>::empty());
        } else {
            assert(next == ps.update(ps.len() - 1, ps.last().push(c)));
            assert(ps.last().push(c) =~= chars@.subrange(start as int, i + 1));
        }
        i = i + 1;
    }
    assert(s.take(to - from) =~= s);
    r.push((start, to));
    r
}

/// The words of a text: what stands between white space.
pub open spec fn fields(s: Seq<char>) -> Seq<Seq<char>> {
    split(s, Separator::Space).filter(|w: Seq<char>| w.len() > 0)
}

/// Where in `chars` the words of `chars[from .. to]` stand.
pub fn field_ranges(chars: &Vec<char>, from: usize, to: usize) -> (r: Vec<(usize, usize)>)
    requires
        from <= to <= chars@.len(),
    ensures
        r@.len() == fields(chars@.subrange(from as int, to as int)).len(),
        forall|k: int|
            0 <= k < r@.len() ==> {
                &&& from <= (#[trigger] r@[k]).0 <= r@[k].1 <= to
                &&& chars@.subrange(r@[k].0 as int, r@[k].1 as int) == fields(
                    chars@.subrange(from as int, to as int),
                )[k]
            },
{
    let ghost all = split(chars@.subrange(from as int, to as int), Separator::Space);
    let ghost filled = |w: Seq<char>| w.len() > 0;
    let parts = split_ranges(chars, from, to, Separator::Space);
    let mut r: Vec<(usize, usize)> = Vec::new();
    let mut k: usize = 0;
    proof {
        reveal(Seq::filter);
        assert(all.take(0).filter(filled) =~= Seq::<Seq<char>>::empty());
    }
    while k < parts.len()
        invariant
            k <= parts@.len(),
            parts@.len() == all.len(),
            filled == (|w: Seq<char>| w.len() > 0),
            from <= to <= chars@.len(),
            forall|j: int|
                0 <= j < parts@.len() ==> {
                    &&& from <= (#[trigger] parts@[j]).0 <= parts@[j].1 <= to
                    &&& chars@.subrange(parts@[j].0 as int, parts@[j].1 as int) == all[j]
                },
            r@.len() == all.take(k as int).filter(filled).len(),
            forall|j: int|
                0 <= j < r@.len() ==> {
                    &&& from <= (#[trigger] r@[j]).0 <= r@[j].1 <= to
                    &&& chars@.subrange(r@[j].0 as int, r@[j].1 as int) == all.take(
                        k as int,
                    ).filter(filled)[j]
                },
        decreases parts@.len() - k,
    {
        let part: (usize, usize) = parts[k];
        proof {
            reveal(Seq::filter);
            assert(all.take(k + 1).drop_last() =~= all.take(k as int));
            assert(all.take(k + 1).last() == all[k as int]);
            assert(all[k as int] == chars@.subrange(part.0 as int, part.1 as int));
            assert(filled(all[k as int]) == (part.0 < part.1));
        }
        if part.0 < part.1 {
            r.push(part);
        }
        k += 1;
    }
    assert(all.take(all.len() as int) =~= all);
    r
}

/// Whether `chars[from .. to]` is `pat`.
pub fn range_is(chars: &Vec<char>, from: usize, to: usize, pat: &Vec<char>) -> (r: bool)
    requires
        from <= to <= chars@.len(),
    ensures
        r == (chars@.subrange(from as int, to as int) == pat@),
{
    let ghost s = chars@.subrange(from as int, to as int);
    if to - from != pat.len() {
        return false;
    }
    let mut i: usize = 0;
    while i < pat.len()
        invariant
            from <= to <= chars@.len(),
            s == chars@.subrange(from as int, to as int),
            s.len() == pat@.len(),
            i <= pat@.len(),
            forall|k: int| 0 <= k < i ==> s[k] == pat@[k],
        decreases pat@.len() - i,
    {
        if chars[from + i] != pat[i] {
            assert(s[i as int] != pat@[i as int]);
            return false;
        }
        i += 1;
    }
    assert(s =~= pat@);
    true
}

/// A digit behind a run of digits makes ten times the number and the digit.
pub proof fn law_digits_count_by_ten(s: Seq<char>, c: char)
    requires
        '0' <= c <= '9',
    ensures
        number(Seq::<char>::empty()) == 0,
        number(s.push(c)) == 10 * number(s) + (c as int - '0' as int),
{
    assert(s.push(c).drop_last() =~= s);
}

/// A number is written with no sign and no leading zero.
pub proof fn law_decimal_form(n: nat)
    ensures
        forall|i: int| 0 <= i < decimal(n).len() ==> '0' <= #[trigger] decimal(n)[i] <= '9',
        n > 0 ==> decimal(n)[0] != '0',
        n < 10 <==> decimal(n).len() == 1,
    decreases n,
{
    lemma_decimal(n);
    if n >= 10 {
        law_decimal_form(n / 10);
    }
}

/// A text is read as a number exactly where it is made of digits, at least one of them,
/// with at most a plus sign before them, and the number is not too large.
pub proof fn law_numbers_are_read(s: Seq<char>, max: nat, i: int)
    ensures
        unsigned(Seq::<char>::empty(), max) is None,
        unsigned(seq!['+'], max) is None,
        s.len() > 0 && (forall|k: int| 0 <= k < s.len() ==> '0' <= #[trigger] s[k] <= '9') ==> (
        unsigned(s, max) is Some <==> number(s) <= max) && (unsigned(s, max) is Some ==> unsigned(
            s,
            max,
        )->0 == number(s)) && unsigned(seq!['+'] + s, max) == unsigned(s, max),
        0 <= i < s.len() && !('0' <= s[i] <= '9') && !(i == 0 && s[i] == '+') ==> unsigned(s, max)
            is None,
{
    assert(seq!['+'].skip(1) =~= Seq::<char>::empty());
    assert((seq!['+'] + s).skip(1) =~= s);
    if s.len() > 0 && s[0] == '+' && 0 < i < s.len() {
        assert(s.skip(1)[i - 1] == s[i]);
    }
}

proof fn lemma_pieces_not_empty(s: Seq<char>, sep: spec_fn(char) -> bool)
    ensures
        pieces(s, sep).len() >= 1,
    decreases s.len(),
{
    if s.len() > 0 {
        lemma_pieces_not_empty(s.drop_last(), sep);
    }
}

/// A text without separators is one piece.
pub proof fn law_one_piece(s: Seq<char>, sep: spec_fn(char) -> bool)
    requires
        forall|i: int| 0 <= i < s.len() ==> !sep(#[trigger] s[i]),
    ensures
        pieces(s, sep) == seq![s],
    decreases s.len(),
{
    if s.len() == 0 {
        assert(s =~= Seq::<char>::empty());
    } else {
        let init = s.drop_last();
        assert(forall|i: int| 0 <= i < init.len() ==> init[i] == s[i]);
        law_one_piece(init, sep);
        assert(!sep(s[s.len() - 1]));
        assert(init.push(s.last()) =~= s);
        assert(pieces(s, sep) =~= seq![s]);
    }
}

/// A separator parts a text: the pieces are those before it and those behind it.
pub proof fn law_separator_parts(
    a: Seq<char>,
    c: char,
    b: Seq<char>,
    sep: spec_fn(char) -> bool,
)
    requires
        sep(c),
    ensures
        pieces(a.push(c) + b, sep) == pieces(a, sep) + pieces(b, sep),
    decreases b.len(),
{
    let s = a.push(c) + b;
    if b.len() == 0 {
        assert(s =~= a.push(c));
        assert(s.drop_last() =~= a);
        assert(pieces(b, sep) =~= seq![Seq::<char>::empty()]);
        assert(pieces(s, sep) =~= pieces(a, sep) + pieces(b, sep));
    } else {
        let init = b.drop_last();
        law_separator_parts(a, c, init, sep);
        lemma_pieces_not_empty(init, sep);
        assert(s.drop_last() =~= a.push(c) + init);
        assert(s.last() == b.last());
        assert(pieces(s, sep) =~= pieces(a, sep) + pieces(b, sep));
    }
}

/// Texts are split into lines at line feeds, and into words at white space.
pub proof fn law_lines_and_words(a: Seq<char>, c: char, b: Seq<char>)
    ensures
        c == '\n' ==> lines(a.push(c) + b) == lines(a) + lines(b),
        is_space(c) ==> words(a.push(c) + b) == words(a) + words(b),
        !a.contains('\n') ==> lines(a) == seq![a],
        (forall|i: int| 0 <= i < a.len() ==> !is_space(#[trigger] a[i])) ==> words(a) == seq![a],
{
    if c == '\n' {
        law_separator_parts(a, c, b, |c: char| c == '\n');
    }
    if is_space(c) {
        law_separator_parts(a, c, b, |c: char| is_space(c));
    }
    if !a.contains('\n') {
        assert forall|i: int| 0 <= i < a.len() implies #[trigger] a[i] != '\n' by {
            assert(a.contains(a[i]));
        }
        law_one_piece(a, |c: char| c == '\n');
    }
    if forall|i: int| 0 <= i < a.len() ==> !is_space(#[trigger] a[i]) {
        law_one_piece(a, |c: char| is_space(c));
    }
}

/// A separator is the character itself, or any white space.
pub proof fn law_split_parts(a: Seq<char>, c: char, b: Seq<char>, sep: Separator)
    ensures
        sep == Separator::Char(c) ==> split(a.push(c) + b, sep) == split(a, sep) + split(b, sep),
        sep == Separator::Space && is_space(c) ==> split(a.push(c) + b, sep) == split(a, sep)
            + split(b, sep),
        sep == Separator::Char(c) && !a.contains(c) ==> split(a, sep) == seq![a],
{
    let at = |c: char| sep.splits(c);
    if at(c) {
        law_separator_parts(a, c, b, at);
    }
    if sep == Separator::Char(c) && !a.contains(c) {
        assert forall|i: int| 0 <= i < a.len() implies !at(#[trigger] a[i]) by {
            assert(a.contains(a[i]));
        }
        law_one_piece(a, at);
    }
}

/// Words are what stands between white space, however much of it there is.
pub proof fn law_fields(a: Seq<char>, c: char, b: Seq<char>)
    ensures
        is_space(c) ==> fields(a.push(c) + b) == fields(a) + fields(b),
        a.len() > 0 && (forall|i: int| 0 <= i < a.len() ==> !is_space(#[trigger] a[i])) ==> fields(
            a,
        ) == seq![a],
        fields(Seq::<char>::empty()) == Seq::<Seq<char>>::empty(),
{
    let filled = |w: Seq<char>| w.len() > 0;
    let at = |c: char| Separator::Space.splits(c);
    let none = Seq::<char>::empty();
    if is_space(c) {
        law_separator_parts(a, c, b, at);
        Seq::filter_distributes_over_add(
            split(a, Separator::Space),
            split(b, Separator::Space),
            filled,
        );
    }
    reveal(Seq::filter);
    assert(seq![none].drop_last() =~= Seq::<Seq<char>>::empty());
    assert(Seq::<Seq<char>>::empty().filter(filled) =~= Seq::<Seq<char>>::empty());
    assert(split(none, Separator::Space) =~= seq![none]);
    assert(seq![none].last() == none);
    assert(seq![none].filter(filled) =~= Seq::<Seq<char>>::empty());
    if a.len() > 0 && forall|i: int| 0 <= i < a.len() ==> !is_space(#[trigger] a[i]) {
        law_one_piece(a, at);
        assert(seq![a].drop_last() =~= Seq::<Seq<char>>::empty());
        assert(filled(seq![a].last()));
        assert(fields(a) =~= seq![a]);
    }
}

/// Blanks, tabs and line ends are white space; no visible ASCII character is.
pub proof fn law_white_space(c: char)
    ensures
        is_space(' ') && is_space('\t') && is_space('\n') && is_space('\r'),
        '!' <= c <= '~' ==> !is_space(c),
        is_space(c) && c as u32 > 0x3000 ==> false,
{
}

/// A text contains another exactly where it is that text with something before and behind
/// it.
pub proof fn law_contains_text(a: Seq<char>, pat: Seq<char>, b: Seq<char>, s: Seq<char>)
    ensures
        contains_text(a + pat + b, pat),
        contains_text(s, pat) ==> exists|i: int|
            0 <= i <= s.len() && #[trigger] s.take(i) + pat + s.skip(i + pat.len()) == s,
        s.len() < pat.len() ==> !contains_text(s, pat),
{
    assert((a + pat + b).subrange(a.len() as int, (a.len() + pat.len()) as int) =~= pat);
    assert(occurs_at(a + pat + b, pat, a.len() as int));
    if contains_text(s, pat) {
        let i = choose|i: int| occurs_at(s, pat, i);
        assert(s.take(i) + s.subrange(i, i + pat.len()) + s.skip(i + pat.len()) =~= s);
    }
}

/// A text is split at the first of the characters, and not at all where there is none.
pub proof fn law_split_once(a: Seq<char>, c: char, b: Seq<char>)
    requires
        !a.contains(c),
    ensures
        split_once(a.push(c) + b, c) == Some((a, b)),
        first_at(a.push(c) + b, c) == a.len(),
        split_once(a, c) is None,
        first_at(a, c) == a.len(),
{
    let s = a.push(c) + b;
    assert forall|k: int| 0 <= k < a.len() implies a[k] != c && s[k] != c by {
        assert(a.contains(a[k]));
        assert(s[k] == a[k]);
    }
    lemma_first_at(s, c, a.len() as int);
    lemma_first_at(a, c, a.len() as int);
    assert(s.take(a.len() as int) =~= a);
    assert(s.skip((a.len() + 1) as int) =~= b);
}

} // verus!
