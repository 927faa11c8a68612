//! Sequences of characters: finding a character, splitting at a separator,
//! dropping a trailing carriage return, and the executable counterparts on
//! slices and strings.
use vstd::prelude::*;
use vstd::slice::slice_subrange;

verus! {

/// The first position in `s` whose element satisfies `p`, or `s.len()` where no
/// element does.
pub open spec fn first_where<T>(s: Seq<T>, p: spec_fn(T) -> bool) -> int
    decreases s.len(),
{
    if s.len() == 0 || p(s[0]) {
        0
    } else {
        1 + first_where(s.skip(1), p)
    }
}

/// `first_where` lies within the sequence, nothing before it satisfies `p`, and
/// the element at it does.
pub proof fn lemma_first_where<T>(s: Seq<T>, p: spec_fn(T) -> bool)
    ensures
        0 <= first_where(s, p) <= s.len(),
        forall|i: int| 0 <= i < first_where(s, p) ==> !p(#[trigger] s[i]),
        first_where(s, p) < s.len() ==> p(s[first_where(s, p)]),
    decreases s.len(),
{
    if s.len() == 0 || p(s[0]) {
    } else {
        let rest = s.skip(1);
        lemma_first_where(rest, p);
        assert forall|i: int| 0 <= i < first_where(s, p) implies !p(#[trigger] s[i]) by {
            if i > 0 {
                assert(s[i] == rest[i - 1]);
            }
        }
        assert(first_where(rest, p) < rest.len() ==> rest[first_where(rest, p)] == s[first_where(
            s,
            p,
        )]);
    }
}

/// A position with nothing satisfying `p` before it, and which is the end of the
/// sequence or satisfies `p` itself, is `first_where`.
pub proof fn lemma_first_where_is<T>(s: Seq<T>, p: spec_fn(T) -> bool, k: int)
    requires
        0 <= k <= s.len(),
        forall|i: int| 0 <= i < k ==> !p(#[trigger] s[i]),
        k < s.len() ==> p(s[k]),
    ensures
        first_where(s, p) == k,
{
    lemma_first_where(s, p);
    let f = first_where(s, p);
    if f < k {
        assert(!p(s[f]));
    } else if k < f {
        assert(!p(s[k]));
    }
}

/// The test "is the character `c`".
pub open spec fn is_char(c: char) -> spec_fn(char) -> bool {
    |x: char| x == c
}

/// The first position at which `c` occurs in `s`, or `s.len()` where it does not.
pub open spec fn index_of(s: Seq<char>, c: char) -> int {
    first_where(s, is_char(c))
}

/// What `index_of` is: within bounds, `c` does not occur before it, and occurs at it.
pub proof fn lemma_index_of(s: Seq<char>, c: char)
    ensures
        0 <= index_of(s, c) <= s.len(),
        forall|i: int| 0 <= i < index_of(s, c) ==> #[trigger] s[i] != c,
        index_of(s, c) < s.len() ==> s[index_of(s, c)] == c,
{
    lemma_first_where(s, is_char(c));
}

/// The position of the first `c` is determined by what stands before and at it.
pub proof fn lemma_index_of_is(s: Seq<char>, c: char, k: int)
    requires
        0 <= k <= s.len(),
        forall|i: int| 0 <= i < k ==> #[trigger] s[i] != c,
        k < s.len() ==> s[k] == c,
    ensures
        index_of(s, c) == k,
{
    lemma_first_where_is(s, is_char(c), k);
}

/// `s` cut at every occurrence of `sep`: the pieces between the separators, in
/// order, empty pieces included. A sequence without `sep` is its own only piece.
pub open spec fn split(s: Seq<char>, sep: char) -> Seq<Seq<char>>
    decreases s.len(),
{
    let i = index_of(s, sep);
    if 0 <= i < s.len() {
        seq![s.take(i)] + split(s.skip(i + 1), sep)
    } else {
        seq![s]
    }
}

/// A sequence in which `sep` does not occur is not cut.
pub proof fn lemma_split_whole(s: Seq<char>, sep: char)
    requires
        forall|i: int| 0 <= i < s.len() ==> #[trigger] s[i] != sep,
    ensures
        split(s, sep) == seq![s],
{
    lemma_index_of_is(s, sep, s.len() as int);
}

/// Where the first `sep` stands at `k`, the first piece is what precedes it and
/// the other pieces are those of what follows it.
pub proof fn lemma_split_at(s: Seq<char>, sep: char, k: int)
    requires
        0 <= k < s.len(),
        forall|i: int| 0 <= i < k ==> #[trigger] s[i] != sep,
        s[k] == sep,
    ensures
        split(s, sep) == seq![s.take(k)] + split(s.skip(k + 1), sep),
{
    lemma_index_of_is(s, sep, k);
}

/// A piece without `sep`, then `sep`, then `rest`: the piece comes first, and
/// the pieces of `rest` follow.
pub proof fn lemma_split_joined(head: Seq<char>, sep: char, rest: Seq<char>)
    requires
        forall|i: int| 0 <= i < head.len() ==> #[trigger] head[i] != sep,
    ensures
        split(head + seq![sep] + rest, sep) == seq![head] + split(rest, sep),
{
    let s = head + seq![sep] + rest;
    let k = head.len() as int;
    assert forall|i: int| 0 <= i < k implies #[trigger] s[i] != sep by {
        assert(s[i] == head[i]);
    }
    lemma_split_at(s, sep, k);
    assert(s.take(k) =~= head);
    assert(s.skip(k + 1) =~= rest);
}

/// There is at least one piece, and `sep` occurs in none.
pub proof fn lemma_split_pieces(s: Seq<char>, sep: char)
    ensures
        split(s, sep).len() >= 1,
        forall|i: int, j: int|
            0 <= i < split(s, sep).len() && 0 <= j < split(s, sep)[i].len() ==> #[trigger] split(
                s,
                sep,
            )[i][j] != sep,
    decreases s.len(),
{
    lemma_index_of(s, sep);
    let k = index_of(s, sep);
    if 0 <= k < s.len() {
        let rest = s.skip(k + 1);
        lemma_split_pieces(rest, sep);
        assert forall|i: int, j: int|
            0 <= i < split(s, sep).len() && 0 <= j < split(s, sep)[i].len() implies #[trigger] split(
            s,
            sep,
        )[i][j] != sep by {
            if i == 0 {
                assert(split(s, sep)[0] == s.take(k));
                assert(s.take(k)[j] == s[j]);
            } else {
                assert(split(s, sep)[i] == split(rest, sep)[i - 1]);
            }
        }
    }
}

/// The pieces of `parts` in order, with `sep` between each two.
pub open spec fn join(parts: Seq<Seq<char>>, sep: char) -> Seq<char>
    decreases parts.len(),
{
    if parts.len() == 0 {
        Seq::<char>::empty()
    } else if parts.len() == 1 {
        parts[0]
    } else {
        parts[0] + seq![sep] + join(parts.skip(1), sep)
    }
}

/// Whether `c` occurs nowhere in `s`.
pub open spec fn lacks(s: Seq<char>, c: char) -> bool {
    forall|i: int| 0 <= i < s.len() ==> #[trigger] s[i] != c
}

/// Cutting at `sep` undoes joining with `sep`, where there is a piece at all
/// and `sep` occurs in none.
pub proof fn lemma_split_join(parts: Seq<Seq<char>>, sep: char)
    requires
        parts.len() >= 1,
        forall|i: int| 0 <= i < parts.len() ==> lacks(#[trigger] parts[i], sep),
    ensures
        split(join(parts, sep), sep) == parts,
    decreases parts.len(),
{
    assert(lacks(parts[0], sep));
    if parts.len() == 1 {
        lemma_split_whole(parts[0], sep);
        assert(seq![parts[0]] =~= parts);
    } else {
        let rest = parts.skip(1);
        assert forall|i: int| 0 <= i < rest.len() implies lacks(#[trigger] rest[i], sep) by {
            assert(rest[i] == parts[i + 1]);
        }
        lemma_split_join(rest, sep);
        lemma_split_joined(parts[0], sep, join(rest, sep));
        assert(seq![parts[0]] + rest =~= parts);
    }
}

/// A character that is not the separator and occurs in no piece does not occur
/// in what the pieces are joined to.
pub proof fn lemma_join_lacks(parts: Seq<Seq<char>>, sep: char, c: char)
    requires
        c != sep,
        forall|i: int| 0 <= i < parts.len() ==> lacks(#[trigger] parts[i], c),
    ensures
        lacks(join(parts, sep), c),
    decreases parts.len(),
{
    if parts.len() == 0 {
    } else if parts.len() == 1 {
        assert(lacks(parts[0], c));
    } else {
        let rest = parts.skip(1);
        assert forall|i: int| 0 <= i < rest.len() implies lacks(#[trigger] rest[i], c) by {
            assert(rest[i] == parts[i + 1]);
        }
        lemma_join_lacks(rest, sep, c);
        assert(lacks(parts[0], c));
        let joined = join(parts, sep);
        let tail = join(rest, sep);
        assert forall|i: int| 0 <= i < joined.len() implies #[trigger] joined[i] != c by {
            if i < parts[0].len() {
                assert(joined[i] == parts[0][i]);
            } else if i == parts[0].len() {
                assert(joined[i] == sep);
            } else {
                assert(joined[i] == tail[i - parts[0].len() - 1]);
            }
        }
    }
}

/// What pieces are joined to begins with the first piece.
pub proof fn lemma_join_begins(parts: Seq<Seq<char>>, sep: char)
    requires
        parts.len() >= 1,
    ensures
        parts[0].is_prefix_of(join(parts, sep)),
{
    if parts.len() > 1 {
        let joined = join(parts, sep);
        assert(joined.subrange(0, parts[0].len() as int) =~= parts[0]);
    } else {
        assert(parts[0].subrange(0, parts[0].len() as int) =~= parts[0]);
    }
}

/// `s` without one trailing carriage return, where it ends in one.
pub open spec fn strip_cr(s: Seq<char>) -> Seq<char> {
    if s.len() > 0 && s.last() == '\r' {
        s.drop_last()
    } else {
        s
    }
}

/// The character sequences that the vectors of `parts` hold.
pub open spec fn texts(parts: Seq<Vec<char>>) -> Seq<Seq<char>> {
    parts.map_values(|p: Vec<char>| p@)
}

/// The character sequences that the strings of `parts` hold.
pub open spec fn string_texts(parts: Seq<String>) -> Seq<Seq<char>> {
    parts.map_values(|p: String| p@)
}

/// `String::push` appends the character to the end of the string.
pub assume_specification[ String::push ](s: &mut String, c: char)
    ensures
        final(s)@ == old(s)@.push(c),
;

/// The characters of `s`, one element each.
pub fn to_chars(s: &str) -> (chars: Vec<char>)
    ensures
        chars@ == s@,
{
    let mut chars: Vec<char> = Vec::new();
    for c in iter: s.chars()
        invariant
            chars@ == iter.seq().take(iter.index()),
            iter.seq() == s@,
    {
        chars.push(c);
    }
    chars
}

/// A string made of the characters of `chars`.
pub fn to_text(chars: &[char]) -> (s: String)
    ensures
        s@ == chars@,
{
    let mut s = String::new();
    let mut i: usize = 0;
    while i < chars.len()
        invariant
            i <= chars.len(),
            s@ == chars@.take(i as int),
        decreases chars.len() - i,
    {
        s.push(chars[i]);
        assert(chars@.take(i + 1) =~= chars@.take(i as int).push(chars@[i as int]));
        i += 1;
    }
    s
}

/// `chars` without one trailing carriage return.
pub fn strip_cr_of(chars: &[char]) -> (stripped: &[char])
    ensures
        stripped@ == strip_cr(chars@),
{
    let n = chars.len();
    if n > 0 && chars[n - 1] == '\r' {
        let stripped = slice_subrange(chars, 0, n - 1);
        assert(stripped@ =~= chars@.drop_last());
        stripped
    } else {
        chars
    }
}

/// The position of the first `c` in `chars`, or its length.
pub fn find(chars: &[char], c: char) -> (k: usize)
    ensures
        k == index_of(chars@, c),
        k <= chars.len(),
{
    let mut k: usize = 0;
    while k < chars.len() && chars[k] != c
        invariant
            k <= chars.len(),
            forall|i: int| 0 <= i < k ==> #[trigger] chars@[i] != c,
        decreases chars.len() - k,
    {
        k += 1;
    }
    proof {
        lemma_index_of_is(chars@, c, k as int);
    }
    k
}

/// The pieces of `chars` between the occurrences of `sep`.
pub fn split_chars(chars: &[char], sep: char) -> (parts: Vec<Vec<char>>)
    ensures
        texts(parts@) == split(chars@, sep),
{
    let mut parts: Vec<Vec<char>> = Vec::new();
    let mut piece: Vec<char> = Vec::new();
    let ghost mut start: int = 0;
    let mut i: usize = 0;
    proof {
        assert(chars@.skip(0) =~= chars@);
        assert(texts(parts@) + split(chars@, sep) =~= split(chars@, sep));
    }
    while i < chars.len()
        invariant
            0 <= start <= i <= chars.len(),
            piece@ == chars@.subrange(start, i as int),
            forall|j: int| start <= j < i ==> #[trigger] chars@[j] != sep,
            split(chars@, sep) == texts(parts@) + split(chars@.skip(start), sep),
        decreases chars.len() - i,
    {
        let c = chars[i];
        if c == sep {
            proof {
                let tail = chars@.skip(start);
                assert forall|j: int| 0 <= j < i - start implies #[trigger] tail[j] != sep by {
                    assert(tail[j] == chars@[start + j]);
                }
                lemma_split_at(tail, sep, i - start);
                assert(tail.take(i - start) =~= piece@);
                assert(tail.skip(i - start + 1) =~= chars@.skip(i + 1));
                assert(texts(parts@.push(piece)) =~= texts(parts@) + seq![piece@]);
            }
            parts.push(piece);
            piece = Vec::new();
            proof {
                start = i + 1;
            }
            assert(piece@ =~= chars@.subrange(start, i + 1));
        } else {
            piece.push(c);
            assert(piece@ =~= chars@.subrange(start, i + 1));
        }
        i += 1;
    }
    proof {
        let tail = chars@.skip(start);
        assert forall|j: int| 0 <= j < tail.len() implies #[trigger] tail[j] != sep by {
            assert(tail[j] == chars@[start + j]);
        }
        lemma_split_whole(tail, sep);
        assert(tail =~= piece@);
        assert(texts(parts@.push(piece)) =~= texts(parts@) + seq![piece@]);
    }
    parts.push(piece);
    parts
}

/// Whether `chars` begins with the characters of `prefix`.
pub fn starts_with(chars: &[char], prefix: &str) -> (b: bool)
    ensures
        b == prefix@.is_prefix_of(chars@),
{
    let n = prefix.unicode_len();
    if chars.len() < n {
        return false;
    }
    let mut i: usize = 0;
    while i < n
        invariant
            i <= n,
            n == prefix@.len(),
            n <= chars.len(),
            forall|j: int| 0 <= j < i ==> chars@[j] == prefix@[j],
        decreases n - i,
    {
        if chars[i] != prefix.get_char(i) {
            assert(!(prefix@ =~= chars@.subrange(0, n as int))) by {
                assert(chars@.subrange(0, n as int)[i as int] == chars@[i as int]);
            }
            return false;
        }
        i += 1;
    }
    assert(prefix@ =~= chars@.subrange(0, n as int));
    true
}

/// Whether `chars` holds exactly the characters of `word`.
pub fn equals(chars: &[char], word: &str) -> (b: bool)
    ensures
        b == (chars@ == word@),
{
    let b = chars.len() == word.unicode_len() && starts_with(chars, word);
    proof {
        if b {
            assert(chars@ =~= chars@.subrange(0, word@.len() as int));
        } else if chars@ == word@ {
            assert(word@ =~= chars@.subrange(0, word@.len() as int));
        }
    }
    b
}

} // verus!
