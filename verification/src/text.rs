//! Text handling over sequences of characters: white space, trimming,
//! splitting on commas, searching and decimal rendering.

use vstd::prelude::*;

verus! {

/// Whether `c` is white space, as Unicode defines it (`White_Space`).
pub open spec fn is_whitespace(c: char) -> bool {
    let code = c as u32;
    ||| 0x09 <= code <= 0x0D
    ||| code == 0x20
    ||| code == 0x85
    ||| code == 0xA0
    ||| code == 0x1680
    ||| 0x2000 <= code <= 0x200A
    ||| code == 0x2028
    ||| code == 0x2029
    ||| code == 0x202F
    ||| code == 0x205F
    ||| code == 0x3000
}

/// `s` without its leading white space.
pub open spec fn trimmed_start(s: Seq<char>) -> Seq<char>
    decreases s.len(),
{
    if s.len() > 0 && is_whitespace(s.first()) {
        trimmed_start(s.drop_first())
    } else {
        s
    }
}

/// `s` without its trailing white space.
pub open spec fn trimmed_end(s: Seq<char>) -> Seq<char>
    decreases s.len(),
{
    if s.len() > 0 && is_whitespace(s.last()) {
        trimmed_end(s.drop_last())
    } else {
        s
    }
}

/// `s` without leading and trailing white space.
pub open spec fn trimmed(s: Seq<char>) -> Seq<char> {
    trimmed_end(trimmed_start(s))
}

/// The pieces of `s` between its commas, in order. There is always at least
/// one piece, and a piece may be empty.
pub open spec fn comma_pieces(s: Seq<char>) -> Seq<Seq<char>>
    decreases s.len(),
{
    if s.len() == 0 {
        seq![Seq::<char>::empty()]
    } else {
        let before = comma_pieces(s.drop_last());
        if s.last() == ',' {
            before.push(Seq::<char>::empty())
        } else {
            before.drop_last().push(before.last().push(s.last()))
        }
    }
}

/// The pieces with a comma between neighbours.
pub open spec fn joined(pieces: Seq<Seq<char>>) -> Seq<char>
    decreases pieces.len(),
{
    if pieces.len() == 0 {
        Seq::<char>::empty()
    } else if pieces.len() == 1 {
        pieces[0]
    } else {
        joined(pieces.drop_last()).push(',') + pieces.last()
    }
}

/// Whether none of the pieces holds a comma.
pub open spec fn comma_free(pieces: Seq<Seq<char>>) -> bool {
    forall|i: int| 0 <= i < pieces.len() ==> !(#[trigger] pieces[i]).contains(',')
}

/// The pieces of `s` between its commas, each one trimmed.
pub open spec fn trimmed_pieces(s: Seq<char>) -> Seq<Seq<char>> {
    comma_pieces(s).map_values(|piece: Seq<char>| trimmed(piece))
}

/// What each of the strings holds.
pub open spec fn texts(strings: Seq<String>) -> Seq<Seq<char>> {
    strings.map_values(|s: String| s@)
}

/// Whether `pattern` occurs somewhere in `text` as a contiguous run.
pub open spec fn occurs_in(pattern: Seq<char>, text: Seq<char>) -> bool {
    exists|at: int|
        0 <= at && at + pattern.len() <= text.len() && #[trigger] text.subrange(
            at,
            at + pattern.len(),
        ) == pattern
}

/// The character that stands for the digit `d`.
pub open spec fn digit(d: int) -> char {
    if d == 0 {
        '0'
    } else if d == 1 {
        '1'
    } else if d == 2 {
        '2'
    } else if d == 3 {
        '3'
    } else if d == 4 {
        '4'
    } else if d == 5 {
        '5'
    } else if d == 6 {
        '6'
    } else if d == 7 {
        '7'
    } else if d == 8 {
        '8'
    } else {
        '9'
    }
}

/// `n` written in base ten, without leading zeros.
pub open spec fn decimal(n: nat) -> Seq<char>
    decreases n,
{
    if n < 10 {
        seq![digit(n as int)]
    } else {
        decimal(n / 10).push(digit((n % 10) as int))
    }
}

/// The numbers written in base ten, with a comma between neighbours.
pub open spec fn comma_joined(numbers: Seq<u64>) -> Seq<char>
    decreases numbers.len(),
{
    if numbers.len() == 0 {
        Seq::<char>::empty()
    } else if numbers.len() == 1 {
        decimal(numbers[0] as nat)
    } else {
        comma_joined(numbers.drop_last()).push(',') + decimal(numbers.last() as nat)
    }
}

/// Leading white space may be skipped before trimming the start.
pub proof fn lemma_trimmed_start_skips(s: Seq<char>, n: int)
    requires
        0 <= n <= s.len(),
        forall|k: int| 0 <= k < n ==> is_whitespace(#[trigger] s[k]),
    ensures
        trimmed_start(s) == trimmed_start(s.subrange(n, s.len() as int)),
    decreases n,
{
    if n == 0 {
        assert(s.subrange(0, s.len() as int) =~= s);
    } else {
        assert(is_whitespace(s[0]));
        let rest = s.drop_first();
        assert forall|k: int| 0 <= k < n - 1 implies is_whitespace(#[trigger] rest[k]) by {
            assert(rest[k] == s[k + 1]);
        }
        lemma_trimmed_start_skips(rest, n - 1);
        assert(rest.subrange(n - 1, rest.len() as int) =~= s.subrange(n, s.len() as int));
    }
}

/// Trailing white space may be dropped before trimming the end.
pub proof fn lemma_trimmed_end_skips(s: Seq<char>, n: int)
    requires
        0 <= n <= s.len(),
        forall|k: int| n <= k < s.len() ==> is_whitespace(#[trigger] s[k]),
    ensures
        trimmed_end(s) == trimmed_end(s.subrange(0, n)),
    decreases s.len() - n,
{
    if n == s.len() {
        assert(s.subrange(0, n) =~= s);
    } else {
        assert(is_whitespace(s[s.len() - 1]));
        let rest = s.drop_last();
        assert forall|k: int| n <= k < rest.len() implies is_whitespace(#[trigger] rest[k]) by {
            assert(rest[k] == s[k]);
        }
        lemma_trimmed_end_skips(rest, n);
        assert(rest.subrange(0, n) =~= s.subrange(0, n));
    }
}

/// Trimming cuts a contiguous run out of the text: one that neither starts
/// nor ends with white space, and around which there is only white space.
pub proof fn lemma_trimmed_is_subrange(s: Seq<char>) -> (bounds: (int, int))
    ensures
        0 <= bounds.0 <= bounds.1 <= s.len(),
        trimmed(s) == s.subrange(bounds.0, bounds.1),
        forall|k: int| 0 <= k < bounds.0 ==> is_whitespace(#[trigger] s[k]),
        forall|k: int| bounds.1 <= k < s.len() ==> is_whitespace(#[trigger] s[k]),
        bounds.0 < bounds.1 ==> !is_whitespace(s[bounds.0]) && !is_whitespace(s[bounds.1 - 1]),
{
    let from = lemma_start_bound(s);
    let tail = s.subrange(from, s.len() as int);
    let len = lemma_end_bound(tail);
    assert(tail.subrange(0, len) =~= s.subrange(from, from + len));
    assert forall|k: int| from + len <= k < s.len() implies is_whitespace(#[trigger] s[k]) by {
        assert(s[k] == tail[k - from]);
    }
    if len > 0 {
        assert(tail[0] == s[from]);
        assert(tail[len - 1] == s[from + len - 1]);
    }
    (from, from + len)
}

/// Where the text starts once its leading white space is gone.
proof fn lemma_start_bound(s: Seq<char>) -> (from: int)
    ensures
        0 <= from <= s.len(),
        trimmed_start(s) == s.subrange(from, s.len() as int),
        forall|k: int| 0 <= k < from ==> is_whitespace(#[trigger] s[k]),
        from < s.len() ==> !is_whitespace(s[from]),
    decreases s.len(),
{
    if s.len() > 0 && is_whitespace(s.first()) {
        let rest = s.drop_first();
        let inner = lemma_start_bound(rest);
        assert(rest.subrange(inner, rest.len() as int) =~= s.subrange(inner + 1, s.len() as int));
        assert forall|k: int| 0 <= k < inner + 1 implies is_whitespace(#[trigger] s[k]) by {
            if k > 0 {
                assert(s[k] == rest[k - 1]);
            }
        }
        if inner + 1 < s.len() {
            assert(s[inner + 1] == rest[inner]);
        }
        inner + 1
    } else {
        assert(s.subrange(0, s.len() as int) =~= s);
        0
    }
}

/// Where the text ends once its trailing white space is gone. If anything
/// is left, its first character is that of the text.
proof fn lemma_end_bound(s: Seq<char>) -> (len: int)
    ensures
        0 <= len <= s.len(),
        trimmed_end(s) == s.subrange(0, len),
        forall|k: int| len <= k < s.len() ==> is_whitespace(#[trigger] s[k]),
        len > 0 ==> !is_whitespace(s[len - 1]),
    decreases s.len(),
{
    if s.len() > 0 && is_whitespace(s.last()) {
        let rest = s.drop_last();
        let inner = lemma_end_bound(rest);
        assert(rest.subrange(0, inner) =~= s.subrange(0, inner));
        assert forall|k: int| inner <= k < s.len() implies is_whitespace(#[trigger] s[k]) by {
            if k < s.len() - 1 {
                assert(s[k] == rest[k]);
            }
        }
        if inner > 0 {
            assert(s[inner - 1] == rest[inner - 1]);
        }
        inner
    } else {
        assert(s.subrange(0, s.len() as int) =~= s);
        s.len() as int
    }
}

/// A text that neither starts nor ends with white space is its own trimming.
pub proof fn lemma_trimmed_of_tight(s: Seq<char>)
    requires
        s.len() > 0 ==> !is_whitespace(s.first()) && !is_whitespace(s.last()),
    ensures
        trimmed(s) == s,
{
}

/// Trimming twice is trimming once.
pub proof fn lemma_trimmed_idempotent(s: Seq<char>)
    ensures
        trimmed(trimmed(s)) == trimmed(s),
{
    let bounds = lemma_trimmed_is_subrange(s);
    let t = s.subrange(bounds.0, bounds.1);
    if t.len() > 0 {
        assert(t.first() == s[bounds.0]);
        assert(t.last() == s[bounds.1 - 1]);
    }
    lemma_trimmed_of_tight(t);
}

/// Trimming brings no comma into a text that has none.
pub proof fn lemma_trimmed_keeps_comma_free(s: Seq<char>)
    requires
        !s.contains(','),
    ensures
        !trimmed(s).contains(','),
{
    let bounds = lemma_trimmed_is_subrange(s);
    let t = s.subrange(bounds.0, bounds.1);
    if t.contains(',') {
        let k = choose|k: int| 0 <= k < t.len() && t[k] == ',';
        assert(s[bounds.0 + k] == ',');
        assert(s.contains(','));
    }
}

/// A text has at least one piece, and no piece holds a comma.
pub proof fn lemma_pieces_comma_free(s: Seq<char>)
    ensures
        comma_pieces(s).len() >= 1,
        comma_free(comma_pieces(s)),
    decreases s.len(),
{
    if s.len() == 0 {
        assert(!Seq::<char>::empty().contains(','));
    } else {
        let before = comma_pieces(s.drop_last());
        lemma_pieces_comma_free(s.drop_last());
        if s.last() == ',' {
            assert(!Seq::<char>::empty().contains(','));
            let pieces = before.push(Seq::<char>::empty());
            assert forall|i: int| 0 <= i < pieces.len() implies !(#[trigger] pieces[i]).contains(
                ',',
            ) by {
                if i < before.len() {
                    assert(pieces[i] == before[i]);
                }
            }
        } else {
            let grown = before.last().push(s.last());
            let pieces = before.drop_last().push(grown);
            assert(!before[before.len() - 1].contains(','));
            if grown.contains(',') {
                let k = choose|k: int| 0 <= k < grown.len() && grown[k] == ',';
                assert(before.last()[k] == ',');
                assert(before.last().contains(','));
            }
            assert forall|i: int| 0 <= i < pieces.len() implies !(#[trigger] pieces[i]).contains(
                ',',
            ) by {
                if i < pieces.len() - 1 {
                    assert(pieces[i] == before[i]);
                }
            }
        }
    }
}

/// A text without a comma is its own single piece.
pub proof fn lemma_pieces_of_comma_free(s: Seq<char>)
    requires
        !s.contains(','),
    ensures
        comma_pieces(s) == seq![s],
    decreases s.len(),
{
    if s.len() == 0 {
        assert(s =~= Seq::<char>::empty());
    } else {
        let front = s.drop_last();
        if front.contains(',') {
            let k = choose|k: int| 0 <= k < front.len() && front[k] == ',';
            assert(s[k] == ',');
        }
        lemma_pieces_of_comma_free(front);
        assert(s[s.len() - 1] != ',');
        assert(front.push(s.last()) =~= s);
        assert(seq![front].drop_last().push(seq![front].last().push(s.last())) =~= seq![s]);
    }
}

/// A comma and a piece without one, put behind a text, add that piece to
/// the pieces of the text.
pub proof fn lemma_pieces_of_appended(s: Seq<char>, piece: Seq<char>)
    requires
        !piece.contains(','),
    ensures
        comma_pieces(s.push(',') + piece) == comma_pieces(s).push(piece),
    decreases piece.len(),
{
    let whole = s.push(',') + piece;
    if piece.len() == 0 {
        assert(whole.drop_last() =~= s);
        assert(piece =~= Seq::<char>::empty());
    } else {
        let front = piece.drop_last();
        if front.contains(',') {
            let k = choose|k: int| 0 <= k < front.len() && front[k] == ',';
            assert(piece[k] == ',');
        }
        lemma_pieces_of_appended(s, front);
        assert(whole.drop_last() =~= s.push(',') + front);
        assert(whole.last() == piece.last());
        assert(piece[piece.len() - 1] != ',');
        let before = comma_pieces(s).push(front);
        assert(before.drop_last() =~= comma_pieces(s));
        assert(front.push(piece.last()) =~= piece);
    }
}

/// Splitting undoes joining: pieces without commas, joined by commas, are
/// the pieces of what they make.
pub proof fn lemma_pieces_of_joined(pieces: Seq<Seq<char>>)
    requires
        pieces.len() >= 1,
        comma_free(pieces),
    ensures
        comma_pieces(joined(pieces)) == pieces,
    decreases pieces.len(),
{
    if pieces.len() == 1 {
        assert(!pieces[0].contains(','));
        lemma_pieces_of_comma_free(pieces[0]);
        assert(seq![pieces[0]] =~= pieces);
    } else {
        let front = pieces.drop_last();
        assert forall|i: int| 0 <= i < front.len() implies !(#[trigger] front[i]).contains(
            ',',
        ) by {
            assert(front[i] == pieces[i]);
        }
        lemma_pieces_of_joined(front);
        assert(!pieces[pieces.len() - 1].contains(','));
        lemma_pieces_of_appended(joined(front), pieces.last());
        assert(front.push(pieces.last()) =~= pieces);
    }
}

/// Joining undoes splitting: the pieces of a text, joined by commas, make
/// the text.
pub proof fn lemma_joined_pieces(s: Seq<char>)
    ensures
        joined(comma_pieces(s)) == s,
    decreases s.len(),
{
    if s.len() == 0 {
        assert(s =~= Seq::<char>::empty());
    } else {
        let front = s.drop_last();
        let before = comma_pieces(front);
        lemma_joined_pieces(front);
        lemma_pieces_comma_free(front);
        if s.last() == ',' {
            let pieces = before.push(Seq::<char>::empty());
            assert(pieces.drop_last() =~= before);
            assert(joined(before).push(',') + Seq::<char>::empty() =~= s);
        } else {
            let grown = before.last().push(s.last());
            let pieces = before.drop_last().push(grown);
            if before.len() == 1 {
                assert(grown =~= s);
            } else {
                assert(pieces.drop_last() =~= before.drop_last());
                assert(joined(before.drop_last()).push(',') + grown =~= (joined(
                    before.drop_last(),
                ).push(',') + before.last()).push(s.last()));
                assert(front.push(s.last()) =~= s);
            }
        }
    }
}

/// The characters of `text`, one by one.
pub fn chars_of(text: &str) -> (chars: Vec<char>)
    ensures
        chars@ == text@,
{
    let mut chars: Vec<char> = Vec::new();
    for c in it: text.chars()
        invariant
            it.seq() == text@,
            chars@ == text@.take(it.index()),
    {
        chars.push(c);
    }
    chars
}

/// Tests a character for white space.
pub fn is_space(c: char) -> (space: bool)
    ensures
        space == is_whitespace(c),
{
    let code: u32 = c as u32;
    (0x09 <= code && code <= 0x0D) || code == 0x20 || code == 0x85 || code == 0xA0 || code
        == 0x1680 || (0x2000 <= code && code <= 0x200A) || code == 0x2028 || code == 0x2029
        || code == 0x202F || code == 0x205F || code == 0x3000
}

/// Cuts leading and trailing white space off `text`.
pub fn trim(text: &str) -> (out: &str)
    ensures
        out@ == trimmed(text@),
{
    let chars = chars_of(text);
    let mut from: usize = 0;
    while from < chars.len() && is_space(chars[from])
        invariant
            from <= chars.len(),
            forall|k: int| 0 <= k < from ==> is_whitespace(#[trigger] chars@[k]),
        decreases chars.len() - from,
    {
        from += 1;
    }
    let mut to: usize = chars.len();
    while to > from && is_space(chars[to - 1])
        invariant
            from <= to <= chars.len(),
            forall|k: int| to <= k < chars.len() ==> is_whitespace(#[trigger] chars@[k]),
        decreases to,
    {
        to -= 1;
    }
    proof {
        let s = text@;
        let tail = s.subrange(from as int, s.len() as int);
        lemma_trimmed_start_skips(s, from as int);
        if tail.len() > 0 {
            assert(tail.first() == s[from as int]);
        }
        assert(trimmed_start(s) == tail);
        assert forall|k: int| to - from <= k < tail.len() implies is_whitespace(
            #[trigger] tail[k],
        ) by {
            assert(tail[k] == s[from + k]);
        }
        lemma_trimmed_end_skips(tail, to - from);
        let kept = tail.subrange(0, to - from);
        assert(kept =~= s.subrange(from as int, to as int));
        if kept.len() > 0 {
            assert(kept.last() == s[to - 1]);
        }
        assert(trimmed_end(tail) == kept);
    }
    text.substring_char(from, to)
}

/// Splits `text` at its commas and trims each piece.
pub fn split_trimmed(text: &str) -> (pieces: Vec<String>)
    ensures
        texts(pieces@) == trimmed_pieces(text@),
{
    let chars = chars_of(text);
    let mut pieces: Vec<String> = Vec::new();
    let ghost mut done: Seq<Seq<char>> = Seq::empty();
    let mut from: usize = 0;
    let mut at: usize = 0;
    proof {
        assert(text@.take(0) =~= Seq::<char>::empty());
        assert(text@.subrange(0, 0) =~= Seq::<char>::empty());
        assert(comma_pieces(text@.take(0)) =~= done.push(text@.subrange(0, 0)));
        assert(texts(pieces@) =~= done.map_values(|piece: Seq<char>| trimmed(piece)));
    }
    while at < chars.len()
        invariant
            chars@ == text@,
            from <= at <= chars.len(),
            comma_pieces(text@.take(at as int)) == done.push(
                text@.subrange(from as int, at as int),
            ),
            texts(pieces@) == done.map_values(|piece: Seq<char>| trimmed(piece)),
        decreases chars.len() - at,
    {
        let ghost seen = text@.take(at as int);
        let ghost next = text@.take(at + 1);
        let ghost open = text@.subrange(from as int, at as int);
        proof {
            assert(next.drop_last() =~= seen);
            assert(next.last() == text@[at as int]);
        }
        if chars[at] == ',' {
            let piece = trim(text.substring_char(from, at));
            let ghost before = pieces@;
            pieces.push(piece.to_string());
            proof {
                assert(texts(pieces@) =~= texts(before).push(trimmed(open)));
                assert(done.push(open).map_values(|piece: Seq<char>| trimmed(piece)) =~= done.map_values(
                    |piece: Seq<char>| trimmed(piece),
                ).push(trimmed(open)));
                done = done.push(open);
                assert(text@.subrange(at + 1, at + 1) =~= Seq::<char>::empty());
            }
            from = at + 1;
        } else {
            proof {
                assert(done.push(open).drop_last() =~= done);
                assert(open.push(text@[at as int]) =~= text@.subrange(from as int, at + 1));
            }
        }
        at += 1;
    }
    let piece = trim(text.substring_char(from, at));
    let ghost before = pieces@;
    pieces.push(piece.to_string());
    proof {
        let open = text@.subrange(from as int, at as int);
        assert(text@.take(at as int) =~= text@);
        assert(texts(pieces@) =~= texts(before).push(trimmed(open)));
        assert(done.push(open).map_values(|piece: Seq<char>| trimmed(piece)) =~= done.map_values(
            |piece: Seq<char>| trimmed(piece),
        ).push(trimmed(open)));
    }
    pieces
}

/// Tests two texts for equality, character by character.
pub fn same_text(left: &str, right: &str) -> (same: bool)
    ensures
        same == (left@ == right@),
{
    let a = chars_of(left);
    let b = chars_of(right);
    if a.len() != b.len() {
        return false;
    }
    let mut at: usize = 0;
    while at < a.len()
        invariant
            a@ == left@,
            b@ == right@,
            a.len() == b.len(),
            at <= a.len(),
            forall|k: int| 0 <= k < at ==> a@[k] == b@[k],
        decreases a.len() - at,
    {
        if a[at] != b[at] {
            return false;
        }
        at += 1;
    }
    assert(left@ =~= right@);
    true
}

/// Searches `text` for an occurrence of `pattern`.
pub fn contains_text(text: &str, pattern: &str) -> (found: bool)
    ensures
        found == occurs_in(pattern@, text@),
{
    let hay = chars_of(text);
    let needle = chars_of(pattern);
    if needle.len() > hay.len() {
        return false;
    }
    let last: usize = hay.len() - needle.len();
    let mut at: usize = 0;
    while at <= last
        invariant
            hay@ == text@,
            needle@ == pattern@,
            needle.len() <= hay.len(),
            last == hay.len() - needle.len(),
            at <= last + 1,
            forall|k: int|
                0 <= k < at ==> #[trigger] text@.subrange(k, k + pattern@.len()) != pattern@,
        decreases last + 1 - at,
    {
        let mut matched: usize = 0;
        while matched < needle.len() && hay[at + matched] == needle[matched]
            invariant
                hay@ == text@,
                needle@ == pattern@,
                at + needle.len() <= hay.len(),
                matched <= needle.len(),
                forall|k: int| 0 <= k < matched ==> text@[at + k] == pattern@[k],
            decreases needle.len() - matched,
        {
            matched += 1;
        }
        if matched == needle.len() {
            assert(text@.subrange(at as int, at + pattern@.len()) =~= pattern@);
            return true;
        }
        proof {
            let window = text@.subrange(at as int, at + pattern@.len());
            assert(window[matched as int] == text@[at + matched]);
        }
        at += 1;
    }
    false
}

/// The digits in `low`, read from its end to its start.
pub open spec fn digits_reversed(low: Seq<u8>) -> Seq<char> {
    Seq::new(low.len(), |i: int| digit(low[low.len() - 1 - i] as int))
}

/// The text of one decimal digit.
fn digit_text(d: u8) -> (text: &'static str)
    requires
        d < 10,
    ensures
        text@ == seq![digit(d as int)],
{
    proof {
        reveal_strlit("0");
        reveal_strlit("1");
        reveal_strlit("2");
        reveal_strlit("3");
        reveal_strlit("4");
        reveal_strlit("5");
        reveal_strlit("6");
        reveal_strlit("7");
        reveal_strlit("8");
        reveal_strlit("9");
    }
    let text = if d == 0 {
        "0"
    } else if d == 1 {
        "1"
    } else if d == 2 {
        "2"
    } else if d == 3 {
        "3"
    } else if d == 4 {
        "4"
    } else if d == 5 {
        "5"
    } else if d == 6 {
        "6"
    } else if d == 7 {
        "7"
    } else if d == 8 {
        "8"
    } else {
        "9"
    };
    assert(text@ =~= seq![digit(d as int)]);
    text
}

/// Appends `n`, written in base ten, to `out`.
pub fn push_decimal(out: &mut String, n: u64)
    ensures
        final(out)@ == old(out)@ + decimal(n as nat),
{
    let mut rest: u64 = n;
    let mut low: Vec<u8> = Vec::new();
    proof {
        assert(decimal(rest as nat) + digits_reversed(low@) =~= decimal(n as nat));
    }
    while rest >= 10
        invariant
            decimal(n as nat) == decimal(rest as nat) + digits_reversed(low@),
            forall|k: int| 0 <= k < low.len() ==> low@[k] < 10,
        decreases rest,
    {
        let d: u8 = (rest % 10) as u8;
        proof {
            let grown = low@.push(d);
            assert(digits_reversed(grown) =~= seq![digit(d as int)] + digits_reversed(low@));
            assert(decimal(rest as nat) == decimal((rest / 10) as nat).push(digit(d as int)));
            assert(decimal((rest / 10) as nat).push(digit(d as int)) + digits_reversed(low@)
                =~= decimal((rest / 10) as nat) + digits_reversed(grown));
        }
        low.push(d);
        rest = rest / 10;
    }
    out.append(digit_text(rest as u8));
    let mut left: usize = low.len();
    while left > 0
        invariant
            left <= low.len(),
            rest < 10,
            forall|k: int| 0 <= k < low.len() ==> low@[k] < 10,
            out@ == old(out)@ + decimal(rest as nat) + digits_reversed(low@).take(
                low.len() - left,
            ),
        decreases left,
    {
        left -= 1;
        let ghost shown = digits_reversed(low@).take(low.len() - left - 1);
        out.append(digit_text(low[left]));
        proof {
            assert(shown + seq![digit(low@[left as int] as int)] =~= digits_reversed(low@).take(
                low.len() - left,
            ));
            assert(out@ =~= old(out)@ + decimal(rest as nat) + digits_reversed(low@).take(
                low.len() - left,
            ));
        }
    }
    proof {
        assert(digits_reversed(low@).take(low.len() as int) =~= digits_reversed(low@));
        assert(old(out)@ + decimal(rest as nat) + digits_reversed(low@) =~= old(out)@ + (decimal(
            rest as nat,
        ) + digits_reversed(low@)));
    }
}

/// Writes the numbers in base ten, with a comma between neighbours.
pub fn join_decimal(numbers: &Vec<u64>) -> (out: String)
    ensures
        out@ == comma_joined(numbers@),
{
    let mut out = String::new();
    let mut at: usize = 0;
    proof {
        assert(numbers@.take(0) =~= Seq::<u64>::empty());
    }
    while at < numbers.len()
        invariant
            at <= numbers.len(),
            out@ == comma_joined(numbers@.take(at as int)),
        decreases numbers.len() - at,
    {
        let ghost shown = numbers@.take(at as int);
        let ghost grown = numbers@.take(at + 1);
        proof {
            assert(grown.drop_last() =~= shown);
            assert(grown.last() == numbers@[at as int]);
            reveal_strlit(",");
            assert(","@ =~= seq![',']);
        }
        if at > 0 {
            out.append(",");
            assert(out@ =~= comma_joined(shown).push(','));
        } else {
            assert(grown[0] == numbers@[0]);
            assert(out@ + decimal(numbers@[0] as nat) =~= decimal(numbers@[0] as nat));
        }
        push_decimal(&mut out, numbers[at]);
        at += 1;
    }
    proof {
        assert(numbers@.take(numbers.len() as int) =~= numbers@);
    }
    out
}

} // verus!
