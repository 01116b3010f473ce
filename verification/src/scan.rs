//! Looking through text: where a character stands, what lies before and
//! after it, letters in lower case, padding and joining.

use vstd::prelude::*;
use crate::text::text_of_range;

verus! {

/// The place of the first `c` in `s`; the length of `s` if there is none.
pub open spec fn first_index(s: Seq<char>, c: char) -> int
    decreases s.len(),
{
    if s.len() == 0 {
        0
    } else if s[0] == c {
        0
    } else {
        1 + first_index(s.skip(1), c)
    }
}

/// The place of the last `c` in `s`; -1 if there is none.
pub open spec fn last_index(s: Seq<char>, c: char) -> int
    decreases s.len(),
{
    if s.len() == 0 {
        -1
    } else if s.last() == c {
        s.len() - 1
    } else {
        last_index(s.drop_last(), c)
    }
}

/// Whether `c` occurs in `s`.
pub open spec fn has_char(s: Seq<char>, c: char) -> bool {
    first_index(s, c) < s.len()
}

/// [`first_index`] is the place of a `c` before which there is none, or the
/// length where there is none at all.
pub proof fn lemma_first_index(s: Seq<char>, c: char)
    ensures
        0 <= first_index(s, c) <= s.len(),
        first_index(s, c) < s.len() ==> s[first_index(s, c)] == c,
        forall|j: int| 0 <= j < first_index(s, c) ==> s[j] != c,
    decreases s.len(),
{
    if s.len() > 0 && s[0] != c {
        let rest = s.skip(1);
        lemma_first_index(rest, c);
        let f = first_index(rest, c);
        if f < rest.len() {
            assert(rest[f] == s[f + 1]);
        }
        assert forall|j: int| 0 <= j < 1 + f implies s[j] != c by {
            if j > 0 {
                assert(rest[j - 1] == s[j]);
            }
        }
    }
}

/// [`last_index`] is the place of a `c` after which there is none, or -1
/// where there is none at all.
pub proof fn lemma_last_index(s: Seq<char>, c: char)
    ensures
        -1 <= last_index(s, c) < s.len(),
        last_index(s, c) >= 0 ==> s[last_index(s, c)] == c,
        forall|j: int| last_index(s, c) < j < s.len() ==> s[j] != c,
    decreases s.len(),
{
    if s.len() > 0 && s.last() != c {
        let init = s.drop_last();
        lemma_last_index(init, c);
        let l = last_index(init, c);
        if l >= 0 {
            assert(init[l] == s[l]);
        }
        assert forall|j: int| l < j < s.len() implies s[j] != c by {
            if j < s.len() - 1 {
                assert(init[j] == s[j]);
            }
        }
    }
}

/// The place of the first `c` in `chars[from..to]`, counted from `from`.
#[verifier::loop_isolation(false)]
pub fn find_first(chars: &Vec<char>, from: usize, to: usize, c: char) -> (place: usize)
    requires
        from <= to <= chars.len(),
    ensures
        place == first_index(chars@.subrange(from as int, to as int), c),
        place <= to - from,
        place < to - from ==> chars@[from + place] == c,
        forall|j: int| from <= j < from + place ==> chars@[j] != c,
{
    let ghost whole = chars@.subrange(from as int, to as int);
    let mut i: usize = from;
    proof {
        assert(whole.skip(0) =~= whole);
        lemma_first_index(whole, c);
        assert forall|j: int| from <= j < from + first_index(whole, c) implies chars@[j] != c by {
            assert(whole[j - from] == chars@[j]);
        }
    }
    while i < to
        invariant
            from <= i <= to <= chars.len(),
            whole == chars@.subrange(from as int, to as int),
            first_index(whole, c) == (i - from) + first_index(whole.skip(i - from), c),
        decreases to - i,
    {
        proof {
            assert(whole.skip(i - from)[0] == chars@[i as int]);
            assert(whole.skip(i - from).skip(1) =~= whole.skip(i - from + 1));
        }
        if chars[i] == c {
            return i - from;
        }
        i = i + 1;
    }
    proof {
        assert(whole.skip(to - from).len() == 0);
    }
    to - from
}

/// The place of the last `c` in `chars[from..to]`, counted from `from`, if
/// there is one.
#[verifier::loop_isolation(false)]
pub fn find_last(chars: &Vec<char>, from: usize, to: usize, c: char) -> (place: Option<usize>)
    requires
        from <= to <= chars.len(),
    ensures
        match place {
            Some(i) => i == last_index(chars@.subrange(from as int, to as int), c) && i < to - from
                && chars@[from + i] == c,
            None => last_index(chars@.subrange(from as int, to as int), c) == -1,
        },
        forall|j: int|
            from + last_index(chars@.subrange(from as int, to as int), c) < j < to ==> chars@[j]
                != c,
{
    let ghost whole = chars@.subrange(from as int, to as int);
    let mut i: usize = to;
    proof {
        assert(whole.take(whole.len() as int) =~= whole);
        lemma_last_index(whole, c);
        assert forall|j: int| from + last_index(whole, c) < j < to implies chars@[j] != c by {
            assert(whole[j - from] == chars@[j]);
        }
    }
    while i > from
        invariant
            from <= i <= to <= chars.len(),
            whole == chars@.subrange(from as int, to as int),
            last_index(whole, c) == last_index(whole.take(i - from), c),
        decreases i,
    {
        proof {
            let seen = whole.take(i - from);
            assert(seen.last() == chars@[i - 1]);
            assert(seen.drop_last() =~= whole.take(i - from - 1));
        }
        if chars[i - 1] == c {
            return Some(i - 1 - from);
        }
        i = i - 1;
    }
    proof {
        assert(whole.take(0).len() == 0);
    }
    None
}

/// A letter of the basic Latin alphabet in lower case; any other character
/// as it is.
pub open spec fn lower(c: char) -> char {
    if 'A' <= c && c <= 'Z' {
        ((c as u8) + 32) as char
    } else {
        c
    }
}

/// `s` with its basic Latin letters in lower case.
pub open spec fn lowercase(s: Seq<char>) -> Seq<char> {
    Seq::new(s.len(), |i: int| lower(s[i]))
}

/// A letter of the basic Latin alphabet in lower case; any other character
/// as it is.
pub fn to_lower(c: char) -> (l: char)
    ensures
        l == lower(c),
{
    if 'A' <= c && c <= 'Z' {
        ((c as u8) + 32) as char
    } else {
        c
    }
}

/// The characters `chars[from..to]` with their basic Latin letters in lower
/// case.
pub fn lowercase_range(chars: &Vec<char>, from: usize, to: usize) -> (out: Vec<char>)
    requires
        from <= to <= chars.len(),
    ensures
        out@ == lowercase(chars@.subrange(from as int, to as int)),
{
    let mut out: Vec<char> = Vec::new();
    let mut i: usize = from;
    while i < to
        invariant
            from <= i <= to <= chars.len(),
            out.len() == i - from,
            forall|k: int| 0 <= k < i - from ==> out@[k] == lower(chars@[from + k]),
        decreases to - i,
    {
        out.push(to_lower(chars[i]));
        i = i + 1;
    }
    proof {
        assert(out@ =~= lowercase(chars@.subrange(from as int, to as int)));
    }
    out
}

/// Whether `chars[from..to]` is the text `word`.
pub fn range_is(chars: &Vec<char>, from: usize, to: usize, word: &Vec<char>) -> (same: bool)
    requires
        from <= to <= chars.len(),
    ensures
        same == (chars@.subrange(from as int, to as int) == word@),
{
    if to - from != word.len() {
        return false;
    }
    let ghost part = chars@.subrange(from as int, to as int);
    let mut i: usize = 0;
    while i < word.len()
        invariant
            i <= word.len(),
            from <= to <= chars.len(),
            to - from == word.len(),
            part == chars@.subrange(from as int, to as int),
            forall|k: int| 0 <= k < i ==> part[k] == word@[k],
        decreases word.len() - i,
    {
        if chars[from + i] != word[i] {
            proof {
                assert(part[i as int] != word@[i as int]);
            }
            return false;
        }
        i = i + 1;
    }
    proof {
        assert(part =~= word@);
    }
    true
}

/// `n` spaces.
pub open spec fn spaces(n: nat) -> Seq<char> {
    Seq::new(n, |i: int| ' ')
}

/// `s` with spaces after it up to the width `width`; a text that is as wide
/// or wider stays as it is.
pub open spec fn padded_right(s: Seq<char>, width: nat) -> Seq<char> {
    if s.len() >= width {
        s
    } else {
        s + spaces((width - s.len()) as nat)
    }
}

/// `s` with spaces before it up to the width `width`; a text that is as wide
/// or wider stays as it is.
pub open spec fn padded_left(s: Seq<char>, width: nat) -> Seq<char> {
    if s.len() >= width {
        s
    } else {
        spaces((width - s.len()) as nat) + s
    }
}

/// Appends `n` spaces to `out`.
pub fn push_spaces(out: &mut String, n: usize)
    ensures
        final(out)@ == old(out)@ + spaces(n as nat),
{
    let mut i: usize = 0;
    proof {
        assert(out@ =~= old(out)@ + spaces(0));
    }
    while i < n
        invariant
            i <= n,
            out@ == old(out)@ + spaces(i as nat),
        decreases n - i,
    {
        out.push(' ');
        proof {
            assert(out@ =~= old(out)@ + spaces((i + 1) as nat));
        }
        i = i + 1;
    }
}

/// Appends `text` to `out`, with spaces after it up to the width `width`.
pub fn push_padded_right(out: &mut String, text: &str, width: usize)
    ensures
        final(out)@ == old(out)@ + padded_right(text@, width as nat),
{
    let n = text.unicode_len();
    out.append(text);
    if n < width {
        push_spaces(out, width - n);
        proof {
            assert(final(out)@ =~= old(out)@ + padded_right(text@, width as nat));
        }
    }
}

/// Appends `text` to `out`, with spaces before it up to the width `width`.
pub fn push_padded_left(out: &mut String, text: &str, width: usize)
    ensures
        final(out)@ == old(out)@ + padded_left(text@, width as nat),
{
    let n = text.unicode_len();
    if n < width {
        push_spaces(out, width - n);
    }
    out.append(text);
    proof {
        assert(final(out)@ =~= old(out)@ + padded_left(text@, width as nat));
    }
}

/// The texts of `parts`, in order, with `sep` between each two.
pub open spec fn joined(parts: Seq<Seq<char>>, sep: Seq<char>) -> Seq<char>
    decreases parts.len(),
{
    if parts.len() == 0 {
        Seq::empty()
    } else if parts.len() == 1 {
        parts[0]
    } else {
        joined(parts.drop_last(), sep) + sep + parts.last()
    }
}

/// The views of texts, in order.
pub open spec fn text_views(parts: Seq<String>) -> Seq<Seq<char>> {
    Seq::new(parts.len(), |i: int| parts[i]@)
}

/// The texts of `parts`, in order, with `sep` between each two.
pub fn join_with(parts: &Vec<String>, sep: &str) -> (out: String)
    ensures
        out@ == joined(text_views(parts@), sep@),
{
    let ghost views = text_views(parts@);
    let mut out = String::new();
    let mut i: usize = 0;
    proof {
        assert(views.take(0) =~= Seq::empty());
    }
    while i < parts.len()
        invariant
            i <= parts.len(),
            views == text_views(parts@),
            out@ == joined(views.take(i as int), sep@),
        decreases parts.len() - i,
    {
        let ghost before = out@;
        if i > 0 {
            out.append(sep);
        }
        out.append(parts[i].as_str());
        proof {
            let now = views.take(i + 1);
            assert(now.drop_last() =~= views.take(i as int));
            assert(now.last() == parts@[i as int]@);
            if i == 0 {
                assert(out@ =~= now[0]);
            } else {
                assert(out@ =~= before + sep@ + now.last());
            }
        }
        i = i + 1;
    }
    proof {
        assert(views.take(parts.len() as int) =~= views);
    }
    out
}

/// The first `n` characters of `s`, or all of `s` if it has fewer.
pub open spec fn first_chars(s: Seq<char>, n: nat) -> Seq<char> {
    if s.len() <= n {
        s
    } else {
        s.take(n as int)
    }
}

/// The first `n` characters of `chars`, or all of them if there are fewer.
pub fn take_chars(chars: &Vec<char>, n: usize) -> (out: String)
    ensures
        out@ == first_chars(chars@, n as nat),
{
    if chars.len() <= n {
        let out = text_of_range(chars, 0, chars.len());
        proof {
            assert(chars@.subrange(0, chars.len() as int) =~= chars@);
        }
        out
    } else {
        let out = text_of_range(chars, 0, n);
        proof {
            assert(chars@.subrange(0, n as int) =~= chars@.take(n as int));
        }
        out
    }
}

/// Whether the text `a` is the text `b` or stands before it where the texts
/// of a list are in order: it is a beginning of `b`, or at the first place
/// where the code points of the two differ it has the lower one.
pub open spec fn text_le(a: Seq<char>, b: Seq<char>) -> bool
    decreases a.len(),
{
    if a.len() == 0 {
        true
    } else if b.len() == 0 {
        false
    } else if (a[0] as u32) == (b[0] as u32) {
        text_le(a.skip(1), b.skip(1))
    } else {
        (a[0] as u32) < (b[0] as u32)
    }
}

/// Whether the text `a` is the text `b` or stands before it.
pub fn text_before_or_same(a: &Vec<char>, b: &Vec<char>) -> (le: bool)
    ensures
        le == text_le(a@, b@),
{
    let mut i: usize = 0;
    proof {
        assert(a@.skip(0) =~= a@);
        assert(b@.skip(0) =~= b@);
    }
    while i < a.len() && i < b.len()
        invariant
            i <= a.len(),
            i <= b.len(),
            text_le(a@, b@) == text_le(a@.skip(i as int), b@.skip(i as int)),
        decreases a.len() - i,
    {
        proof {
            assert(a@.skip(i as int)[0] == a@[i as int]);
            assert(b@.skip(i as int)[0] == b@[i as int]);
            assert(a@.skip(i as int).skip(1) =~= a@.skip(i + 1));
            assert(b@.skip(i as int).skip(1) =~= b@.skip(i + 1));
        }
        let x = a[i] as u32;
        let y = b[i] as u32;
        if x != y {
            return x < y;
        }
        i = i + 1;
    }
    i == a.len()
}

/// Of two texts one is the other or stands before it.
pub proof fn lemma_text_le_total(a: Seq<char>, b: Seq<char>)
    ensures
        text_le(a, b) || text_le(b, a),
    decreases a.len(),
{
    if a.len() > 0 && b.len() > 0 && (a[0] as u32) == (b[0] as u32) {
        lemma_text_le_total(a.skip(1), b.skip(1));
    }
}

/// What stands before a text stands before every text that the text stands
/// before.
pub proof fn lemma_text_le_transitive(a: Seq<char>, b: Seq<char>, c: Seq<char>)
    requires
        text_le(a, b),
        text_le(b, c),
    ensures
        text_le(a, c),
    decreases a.len(),
{
    if a.len() > 0 && b.len() > 0 && c.len() > 0 && (a[0] as u32) == (b[0] as u32) && (
    b[0] as u32) == (c[0] as u32) {
        lemma_text_le_transitive(a.skip(1), b.skip(1), c.skip(1));
    }
}

} // verus!
