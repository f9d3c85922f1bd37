//! Text as sequences of characters: trimming, splitting, prefixes and
//! case-blind search, each stated over `Seq<char>`.

use vstd::prelude::*;

verus! {

/// The character sequences of a list of strings, in order.
pub open spec fn texts(list: Seq<String>) -> Seq<Seq<char>> {
    Seq::new(list.len(), |i: int| list[i]@)
}

/// The character sequence of an optional string.
pub open spec fn opt_text(value: Option<String>) -> Option<Seq<char>> {
    match value {
        Some(s) => Some(s@),
        None => None,
    }
}

/// White space as Unicode defines it (the property `White_Space`).
pub open spec fn is_space(c: char) -> bool {
    let n = c as u32;
    ||| 0x09 <= n <= 0x0D
    ||| n == 0x20
    ||| n == 0x85
    ||| n == 0xA0
    ||| n == 0x1680
    ||| 0x2000 <= n <= 0x200A
    ||| n == 0x2028
    ||| n == 0x2029
    ||| n == 0x202F
    ||| n == 0x205F
    ||| n == 0x3000
}

/// A text without its leading white space.
pub open spec fn trim_start(s: Seq<char>) -> Seq<char>
    decreases s.len(),
{
    if s.len() > 0 && is_space(s[0]) {
        trim_start(s.drop_first())
    } else {
        s
    }
}

/// A text without its trailing white space.
pub open spec fn trim_end(s: Seq<char>) -> Seq<char>
    decreases s.len(),
{
    if s.len() > 0 && is_space(s.last()) {
        trim_end(s.drop_last())
    } else {
        s
    }
}

/// A text without the white space at either end.
pub open spec fn trimmed(s: Seq<char>) -> Seq<char> {
    trim_end(trim_start(s))
}

/// The position of the first occurrence of a character in a text.
pub open spec fn find(s: Seq<char>, c: char) -> Option<int>
    decreases s.len(),
{
    if s.len() == 0 {
        None
    } else if s[0] == c {
        Some(0)
    } else {
        match find(s.drop_first(), c) {
            Some(i) => Some(i + 1),
            None => None,
        }
    }
}

/// The pieces of a text between occurrences of a separator. A text without
/// the separator is one piece; the empty text is one empty piece.
pub open spec fn split(s: Seq<char>, sep: char) -> Seq<Seq<char>>
    decreases s.len(),
{
    match find(s, sep) {
        Some(i) => if 0 <= i < s.len() {
            seq![s.take(i)] + split(s.skip(i + 1), sep)
        } else {
            seq![s]
        },
        None => seq![s],
    }
}

/// The two parts of a text around the first occurrence of a separator.
pub open spec fn split_once(s: Seq<char>, sep: char) -> Option<(Seq<char>, Seq<char>)> {
    match find(s, sep) {
        Some(i) => Some((s.take(i), s.skip(i + 1))),
        None => None,
    }
}

/// Whether a text begins with a given prefix.
pub open spec fn has_prefix(s: Seq<char>, prefix: Seq<char>) -> bool {
    prefix.len() <= s.len() && s.take(prefix.len() as int) == prefix
}

/// What follows a prefix in a text that begins with it.
pub open spec fn strip_prefix(s: Seq<char>, prefix: Seq<char>) -> Option<Seq<char>> {
    if has_prefix(s, prefix) {
        Some(s.skip(prefix.len() as int))
    } else {
        None
    }
}

/// The code of a character with the letters `A` to `Z` taken as `a` to `z`.
pub open spec fn fold_code(c: char) -> int {
    if 'A' <= c && c <= 'Z' {
        c as int + 32
    } else {
        c as int
    }
}

/// A text as the codes of its characters, case folded.
pub open spec fn folded(s: Seq<char>) -> Seq<int> {
    Seq::new(s.len(), |i: int| fold_code(s[i]))
}

/// Whether `needle` stands in `hay` at position `at`, case apart.
pub open spec fn occurs_at(hay: Seq<char>, needle: Seq<char>, at: int) -> bool {
    &&& 0 <= at
    &&& at + needle.len() <= hay.len()
    &&& forall|j: int| 0 <= j < needle.len() ==> fold_code(#[trigger] hay[at + j]) == fold_code(needle[j])
}

/// Whether `needle` occurs somewhere in `hay`, case apart. The empty needle
/// occurs in every text.
pub open spec fn contains_folded(hay: Seq<char>, needle: Seq<char>) -> bool {
    exists|at: int| occurs_at(hay, needle, at)
}

/// Where the first occurrence of `c` is, `find` says so.
pub proof fn lemma_find_first(s: Seq<char>, c: char, at: int)
    requires
        0 <= at < s.len(),
        s[at] == c,
        forall|j: int| 0 <= j < at ==> s[j] != c,
    ensures
        find(s, c) == Some(at),
    decreases at,
{
    if at > 0 {
        let rest = s.drop_first();
        assert forall|j: int| 0 <= j < at - 1 implies rest[j] != c by {
            assert(rest[j] == s[j + 1]);
        }
        lemma_find_first(rest, c, at - 1);
    }
}

/// A text in which `c` does not occur has no first occurrence of it.
pub proof fn lemma_find_none(s: Seq<char>, c: char)
    requires
        forall|j: int| 0 <= j < s.len() ==> s[j] != c,
    ensures
        find(s, c) is None,
    decreases s.len(),
{
    if s.len() > 0 {
        let rest = s.drop_first();
        assert forall|j: int| 0 <= j < rest.len() implies rest[j] != c by {
            assert(rest[j] == s[j + 1]);
        }
        lemma_find_none(rest, c);
    }
}

/// Leading white space of known extent is what `trim_start` removes.
pub proof fn lemma_trim_start(s: Seq<char>, from: int)
    requires
        0 <= from <= s.len(),
        forall|j: int| 0 <= j < from ==> is_space(s[j]),
        from < s.len() ==> !is_space(s[from]),
    ensures
        trim_start(s) == s.skip(from),
    decreases from,
{
    if from > 0 {
        let rest = s.drop_first();
        assert forall|j: int| 0 <= j < from - 1 implies is_space(rest[j]) by {
            assert(rest[j] == s[j + 1]);
        }
        lemma_trim_start(rest, from - 1);
        assert(rest.skip(from - 1) =~= s.skip(from));
    } else {
        assert(s.skip(0) =~= s);
    }
}

/// Trailing white space of known extent is what `trim_end` removes.
pub proof fn lemma_trim_end(s: Seq<char>, to: int)
    requires
        0 <= to <= s.len(),
        forall|j: int| to <= j < s.len() ==> is_space(s[j]),
        to > 0 ==> !is_space(s[to - 1]),
    ensures
        trim_end(s) == s.take(to),
    decreases s.len() - to,
{
    if to < s.len() {
        let rest = s.drop_last();
        lemma_trim_end(rest, to);
        assert(rest.take(to) =~= s.take(to));
    } else {
        assert(s.take(to) =~= s);
    }
}

/// `String::push`: appends one character to the end of the string.
#[verifier::external_body]
fn push_char(s: &mut String, c: char)
    ensures
        final(s)@ == old(s)@.push(c),
{
    s.push(c)
}

/// The characters of a string, in order.
pub fn chars_of(s: &str) -> (v: Vec<char>)
    ensures
        v@ == s@,
{
    let mut v: Vec<char> = Vec::new();
    for c in it: s.chars()
        invariant
            it.seq() == s@,
            v@ == it.seq().take(it.index()),
    {
        v.push(c);
        assert(v@ =~= it.seq().take(it.index() + 1));
    }
    assert(v@ =~= s@);
    v
}

/// The string made of the characters from `from` up to `to`.
pub fn string_of(chars: &Vec<char>, from: usize, to: usize) -> (s: String)
    requires
        from <= to <= chars.len(),
    ensures
        s@ == chars@.subrange(from as int, to as int),
{
    let mut s = String::new();
    let mut i: usize = from;
    while i < to
        invariant
            from <= i <= to <= chars.len(),
            s@ == chars@.subrange(from as int, i as int),
        decreases to - i,
    {
        push_char(&mut s, chars[i]);
        i += 1;
        assert(s@ =~= chars@.subrange(from as int, i as int));
    }
    s
}

/// Tells white space from other characters.
pub fn char_is_space(c: char) -> (b: bool)
    ensures
        b == is_space(c),
{
    let n: u32 = c as u32;
    (0x09 <= n && n <= 0x0D) || n == 0x20 || n == 0x85 || n == 0xA0 || n == 0x1680 || (0x2000 <= n
        && n <= 0x200A) || n == 0x2028 || n == 0x2029 || n == 0x202F || n == 0x205F || n == 0x3000
}

/// The bounds of what remains of `chars[from..to]` once the white space at
/// both ends is taken away.
fn trim_bounds(chars: &Vec<char>, from: usize, to: usize) -> (r: (usize, usize))
    requires
        from <= to <= chars.len(),
    ensures
        from <= r.0 <= r.1 <= to,
        chars@.subrange(r.0 as int, r.1 as int) == trimmed(chars@.subrange(from as int, to as int)),
{
    let ghost piece = chars@.subrange(from as int, to as int);
    let mut a: usize = from;
    while a < to && char_is_space(chars[a])
        invariant
            from <= a <= to <= chars.len(),
            forall|j: int| from <= j < a ==> is_space(chars@[j]),
        decreases to - a,
    {
        a += 1;
    }
    let mut b: usize = to;
    while b > a && char_is_space(chars[b - 1])
        invariant
            a <= b <= to <= chars.len(),
            forall|j: int| b <= j < to ==> is_space(chars@[j]),
        decreases b,
    {
        b -= 1;
    }
    proof {
        lemma_trim_start(piece, a - from);
        let rest = piece.skip(a - from);
        assert(rest =~= chars@.subrange(a as int, to as int));
        lemma_trim_end(rest, b - a);
        assert(rest.take(b - a) =~= chars@.subrange(a as int, b as int));
    }
    (a, b)
}

/// A copy of the text without the white space at either end.
pub fn trim(s: &str) -> (r: String)
    ensures
        r@ == trimmed(s@),
{
    let chars = chars_of(s);
    let (a, b) = trim_bounds(&chars, 0, chars.len());
    assert(chars@.subrange(0, chars.len() as int) =~= chars@);
    string_of(&chars, a, b)
}

/// The position of the first `c` at or after `from`, or the length of the
/// text if there is none.
fn next_index(chars: &Vec<char>, from: usize, c: char) -> (at: usize)
    requires
        from <= chars.len(),
    ensures
        from <= at <= chars.len(),
        at < chars.len() ==> find(chars@.skip(from as int), c) == Some(at - from),
        at == chars.len() ==> find(chars@.skip(from as int), c) is None,
{
    let mut at: usize = from;
    while at < chars.len() && chars[at] != c
        invariant
            from <= at <= chars.len(),
            forall|j: int| from <= j < at ==> chars@[j] != c,
        decreases chars.len() - at,
    {
        at += 1;
    }
    proof {
        let rest = chars@.skip(from as int);
        if at < chars.len() {
            lemma_find_first(rest, c, at - from);
        } else {
            lemma_find_none(rest, c);
        }
    }
    at
}

/// A piece as it is kept: trimmed of the white space at its ends, or whole.
pub open spec fn kept_piece(piece: Seq<char>, trim: bool) -> Seq<char> {
    if trim {
        trimmed(piece)
    } else {
        piece
    }
}

/// The pieces of the text between occurrences of `sep`, each trimmed or whole.
fn split_pieces(s: &str, sep: char, trim: bool) -> (pieces: Vec<String>)
    ensures
        texts(pieces@) == split(s@, sep).map_values(|p: Seq<char>| kept_piece(p, trim)),
{
    let chars = chars_of(s);
    let mut pieces: Vec<String> = Vec::new();
    let mut start: usize = 0;
    let ghost keep = |p: Seq<char>| kept_piece(p, trim);
    assert(chars@.skip(0) =~= chars@);
    loop
        invariant_except_break
            start <= chars.len(),
            chars@ == s@,
            keep == |p: Seq<char>| kept_piece(p, trim),
            split(s@, sep).map_values(keep) == texts(pieces@) + split(
                chars@.skip(start as int),
                sep,
            ).map_values(keep),
        ensures
            texts(pieces@) == split(s@, sep).map_values(keep),
        decreases chars.len() - start,
    {
        let at = next_index(&chars, start, sep);
        let (a, b) = if trim {
            trim_bounds(&chars, start, at)
        } else {
            (start, at)
        };
        let piece = string_of(&chars, a, b);
        let ghost before = texts(pieces@);
        let ghost rest = chars@.skip(start as int);
        pieces.push(piece);
        proof {
            assert(rest.take(at - start) =~= chars@.subrange(start as int, at as int));
            assert(texts(pieces@) =~= before + seq![kept_piece(rest.take(at - start), trim)]);
        }
        if at == chars.len() {
            proof {
                assert(rest.take(at - start) =~= rest);
                assert(split(rest, sep) =~= seq![rest]);
                assert(split(rest, sep).map_values(keep) =~= seq![kept_piece(rest, trim)]);
            }
            break ;
        }
        proof {
            let tail = rest.skip(at - start + 1);
            assert(tail =~= chars@.skip(at + 1));
            assert(split(rest, sep) =~= seq![rest.take(at - start)] + split(tail, sep));
            assert(split(rest, sep).map_values(keep) =~= seq![
                kept_piece(rest.take(at - start), trim),
            ] + split(tail, sep).map_values(keep));
        }
        start = at + 1;
    }
    pieces
}

/// The pieces of the text between occurrences of `sep`.
pub fn split_on(s: &str, sep: char) -> (pieces: Vec<String>)
    ensures
        texts(pieces@) == split(s@, sep),
{
    let pieces = split_pieces(s, sep, false);
    assert(split(s@, sep).map_values(|p: Seq<char>| kept_piece(p, false)) =~= split(s@, sep));
    pieces
}

/// The pieces of the text between occurrences of `sep`, each trimmed of the
/// white space at its ends.
pub fn split_trimmed(s: &str, sep: char) -> (pieces: Vec<String>)
    ensures
        texts(pieces@) == split(s@, sep).map_values(|p: Seq<char>| trimmed(p)),
{
    let pieces = split_pieces(s, sep, true);
    assert(split(s@, sep).map_values(|p: Seq<char>| kept_piece(p, true)) =~= split(
        s@,
        sep,
    ).map_values(|p: Seq<char>| trimmed(p)));
    pieces
}

/// The trimmed parts of the text before and after the first `sep`, if there
/// is one.
pub fn split_once_trimmed(s: &str, sep: char) -> (r: Option<(String, String)>)
    ensures
        match split_once(s@, sep) {
            Some((head, tail)) => r is Some && r.unwrap().0@ == trimmed(head) && r.unwrap().1@
                == trimmed(tail),
            None => r is None,
        },
{
    let chars = chars_of(s);
    assert(chars@.skip(0) =~= chars@);
    let at = next_index(&chars, 0, sep);
    if at == chars.len() {
        None
    } else {
        let (a, b) = trim_bounds(&chars, 0, at);
        let (c, d) = trim_bounds(&chars, at + 1, chars.len());
        assert(chars@.subrange(0, at as int) =~= s@.take(at as int));
        assert(chars@.subrange(at + 1, chars.len() as int) =~= s@.skip(at + 1));
        Some((string_of(&chars, a, b), string_of(&chars, c, d)))
    }
}

/// What follows `prefix` in the text, if the text begins with it.
pub fn strip(s: &str, prefix: &str) -> (r: Option<String>)
    ensures
        opt_text(r) == strip_prefix(s@, prefix@),
{
    let chars = chars_of(s);
    let head = chars_of(prefix);
    if head.len() > chars.len() {
        return None;
    }
    let mut i: usize = 0;
    while i < head.len()
        invariant
            i <= head.len() <= chars.len(),
            chars@ == s@,
            head@ == prefix@,
            forall|j: int| 0 <= j < i ==> chars@[j] == head@[j],
        decreases head.len() - i,
    {
        if chars[i] != head[i] {
            assert(s@.take(prefix@.len() as int)[i as int] != prefix@[i as int]);
            return None;
        }
        i += 1;
    }
    assert(s@.take(prefix@.len() as int) =~= prefix@);
    let rest = string_of(&chars, head.len(), chars.len());
    assert(chars@.subrange(head.len() as int, chars.len() as int) =~= s@.skip(prefix@.len() as int));
    Some(rest)
}

/// The case-folded code of a character.
fn code_of(c: char) -> (n: u32)
    ensures
        n == fold_code(c),
{
    let n: u32 = c as u32;
    if 'A' <= c && c <= 'Z' {
        n + 32
    } else {
        n
    }
}

/// Whether `needle` stands in `hay` at `at`, case apart.
fn stands_at(hay: &Vec<char>, needle: &Vec<char>, at: usize) -> (b: bool)
    requires
        at + needle.len() <= hay.len(),
    ensures
        b == occurs_at(hay@, needle@, at as int),
{
    let mut j: usize = 0;
    while j < needle.len()
        invariant
            j <= needle.len(),
            at + needle.len() <= hay.len(),
            forall|k: int| 0 <= k < j ==> fold_code(#[trigger] hay@[at + k]) == fold_code(needle@[k]),
        decreases needle.len() - j,
    {
        if code_of(hay[at + j]) != code_of(needle[j]) {
            return false;
        }
        j += 1;
    }
    true
}

/// Searches `hay` for `needle`, taking upper and lower case ASCII letters as
/// the same. Other characters match only themselves.
pub fn contains_ignore_case(hay: &str, needle: &str) -> (b: bool)
    ensures
        b == contains_folded(hay@, needle@),
{
    let h = chars_of(hay);
    let n = chars_of(needle);
    if n.len() > h.len() {
        return false;
    }
    let last: usize = h.len() - n.len();
    let mut at: usize = 0;
    while at <= last
        invariant
            at <= last + 1,
            last == h.len() - n.len(),
            n.len() <= h.len(),
            h@ == hay@,
            n@ == needle@,
            forall|k: int| 0 <= k < at ==> !occurs_at(hay@, needle@, k),
        decreases last + 1 - at,
    {
        if stands_at(&h, &n, at) {
            return true;
        }
        at += 1;
    }
    false
}

/// Case-blind search sees only the folded texts: two hays that fold alike and
/// two needles that fold alike give the same answer.
pub proof fn lemma_search_ignores_case(
    hay: Seq<char>,
    needle: Seq<char>,
    hay2: Seq<char>,
    needle2: Seq<char>,
)
    requires
        folded(hay) == folded(hay2),
        folded(needle) == folded(needle2),
    ensures
        contains_folded(hay, needle) == contains_folded(hay2, needle2),
{
    assert(hay.len() == folded(hay).len());
    assert(hay2.len() == folded(hay2).len());
    assert(needle.len() == folded(needle).len());
    assert(needle2.len() == folded(needle2).len());
    assert forall|k: int| 0 <= k < hay.len() implies fold_code(#[trigger] hay[k]) == fold_code(
        hay2[k],
    ) by {
        assert(folded(hay)[k] == fold_code(hay[k]));
        assert(folded(hay2)[k] == fold_code(hay2[k]));
    }
    assert forall|k: int| 0 <= k < needle.len() implies fold_code(#[trigger] needle[k])
        == fold_code(needle2[k]) by {
        assert(folded(needle)[k] == fold_code(needle[k]));
        assert(folded(needle2)[k] == fold_code(needle2[k]));
    }
    assert forall|at: int| occurs_at(hay, needle, at) == occurs_at(hay2, needle2, at) by {
        if occurs_at(hay, needle, at) {
            assert forall|j: int| 0 <= j < needle2.len() implies fold_code(#[trigger] hay2[at + j])
                == fold_code(needle2[j]) by {
                assert(fold_code(hay[at + j]) == fold_code(needle[j]));
            }
        }
        if occurs_at(hay2, needle2, at) {
            assert forall|j: int| 0 <= j < needle.len() implies fold_code(#[trigger] hay[at + j])
                == fold_code(needle[j]) by {
                assert(fold_code(hay2[at + j]) == fold_code(needle2[j]));
            }
        }
    }
}

} // verus!
