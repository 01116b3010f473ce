//! References to container images and the headers of image registries, taken
//! apart.

use vstd::prelude::*;
use crate::scan::{
    find_first, find_last, first_index, has_char, last_index, lemma_text_le_total,
    lemma_text_le_transitive, lowercase, lowercase_range, range_is, text_before_or_same, text_le,
};
use crate::supervisor::{is_whitespace, leading_spaces, trailing_spaces, trimmed};
use crate::text::{chars_of, join2, text_of_range};

verus! {

/// What stands before the first `c` in `s`; all of `s` if there is no `c`.
pub open spec fn before_first(s: Seq<char>, c: char) -> Seq<char> {
    s.take(first_index(s, c))
}

/// A reference without its tag: what stands before the last colon, if that
/// colon comes after the last slash and not at the very start.
pub open spec fn without_tag_part(s: Seq<char>) -> Seq<char> {
    let colon = last_index(s, ':');
    let slash = last_index(s, '/');
    if colon >= 0 && colon > (if slash >= 0 {
        slash
    } else {
        0
    }) {
        s.take(colon)
    } else {
        s
    }
}

/// The registry and the repository that a reference names: the reference
/// without digest and tag, parted at its first slash, if what stands before
/// the slash looks like a host (it has a dot or a colon, or is `localhost`)
/// and something stands after it.
pub open spec fn registry_reference(reference: Seq<char>) -> Option<(Seq<char>, Seq<char>)> {
    let plain = without_tag_part(before_first(reference, '@'));
    let slash = first_index(plain, '/');
    let first = plain.take(slash);
    let rest = plain.skip(slash + 1);
    if slash >= plain.len() {
        None
    } else if !(has_char(first, '.') || has_char(first, ':') || first == "localhost"@) {
        None
    } else if rest.len() == 0 {
        None
    } else {
        Some((first, rest))
    }
}

/// The view of an optional pair of texts.
pub open spec fn optional_pair(pair: Option<(String, String)>) -> Option<(Seq<char>, Seq<char>)> {
    match pair {
        Some((a, b)) => Some((a@, b@)),
        None => None,
    }
}

/// Where the reference in `chars` ends once digest and tag are left out.
fn plain_end(chars: &Vec<char>) -> (end: usize)
    ensures
        end <= chars.len(),
        chars@.take(end as int) == without_tag_part(before_first(chars@, '@')),
{
    let at = find_first(chars, 0, chars.len(), '@');
    proof {
        assert(chars@.subrange(0, chars.len() as int) =~= chars@);
        assert(chars@.subrange(0, at as int) =~= chars@.take(at as int));
    }
    let colon = find_last(chars, 0, at, ':');
    let slash = find_last(chars, 0, at, '/');
    let floor: usize = match slash {
        Some(s) => s,
        None => 0,
    };
    match colon {
        Some(c) => {
            if c > floor {
                proof {
                    assert(chars@.take(at as int).take(c as int) =~= chars@.take(c as int));
                }
                c
            } else {
                at
            }
        },
        None => at,
    }
}

/// The registry and the repository that `reference` names, if it names a
/// registry.
pub fn parse_registry_reference(reference: &str) -> (parts: Option<(String, String)>)
    ensures
        optional_pair(parts) == registry_reference(reference@),
{
    let chars = chars_of(reference);
    let end = plain_end(&chars);
    let ghost plain = chars@.take(end as int);
    proof {
        assert(chars@.subrange(0, end as int) =~= plain);
    }
    let slash = find_first(&chars, 0, end, '/');
    if slash >= end {
        return None;
    }
    let ghost first = plain.take(slash as int);
    proof {
        assert(chars@.subrange(0, slash as int) =~= first);
        assert(chars@.subrange(slash + 1, end as int) =~= plain.skip(slash + 1));
    }
    let dot = find_first(&chars, 0, slash, '.');
    let colon = find_first(&chars, 0, slash, ':');
    let localhost = chars_of("localhost");
    if !(dot < slash || colon < slash || range_is(&chars, 0, slash, &localhost)) {
        return None;
    }
    if slash + 1 >= end {
        return None;
    }
    Some((text_of_range(&chars, 0, slash), text_of_range(&chars, slash + 1, end)))
}

/// The image and the tag that a reference names: the reference without its
/// digest, parted at its last colon if that colon comes after the last slash
/// and something stands on either side of it; and else the whole of it with
/// the tag `latest`.
pub open spec fn image_reference(reference: Seq<char>) -> (Seq<char>, Seq<char>) {
    let plain = before_first(reference, '@');
    let colon = last_index(plain, ':');
    let slash = last_index(plain, '/');
    if colon > (if slash >= 0 {
        slash
    } else {
        0
    }) && colon + 1 < plain.len() {
        (plain.take(colon), plain.skip(colon + 1))
    } else {
        (plain, "latest"@)
    }
}

/// The image and the tag that `reference` names.
pub fn split_image_reference(reference: &str) -> (parts: (String, String))
    ensures
        (parts.0@, parts.1@) == image_reference(reference@),
{
    let chars = chars_of(reference);
    let at = find_first(&chars, 0, chars.len(), '@');
    let ghost plain = chars@.take(at as int);
    proof {
        assert(chars@.subrange(0, chars.len() as int) =~= chars@);
        assert(chars@.subrange(0, at as int) =~= plain);
    }
    let colon = find_last(&chars, 0, at, ':');
    let slash = find_last(&chars, 0, at, '/');
    let floor: usize = match slash {
        Some(s) => s,
        None => 0,
    };
    match colon {
        Some(c) => {
            if c > floor && c + 1 < at {
                proof {
                    assert(chars@.subrange(0, c as int) =~= plain.take(c as int));
                    assert(chars@.subrange(c + 1, at as int) =~= plain.skip(c + 1));
                }
                return (text_of_range(&chars, 0, c), text_of_range(&chars, c + 1, at));
            }
        },
        None => {},
    }
    (text_of_range(&chars, 0, at), "latest".to_owned())
}

/// `s` cut to at most `max` characters: a text that fits stays as it is, a
/// longer one keeps one character less than `max` and ends in an ellipsis. A
/// text that does not fit into nothing becomes the ellipsis alone.
pub open spec fn truncated(s: Seq<char>, max: nat) -> Seq<char> {
    if s.len() <= max {
        s
    } else if max == 0 {
        seq!['\u{2026}']
    } else {
        s.take(max - 1).push('\u{2026}')
    }
}

/// `s` cut to at most `max` characters.
pub fn truncate_str(s: &str, max: usize) -> (out: String)
    ensures
        out@ == truncated(s@, max as nat),
{
    let chars = chars_of(s);
    if chars.len() <= max {
        return s.to_owned();
    }
    let keep: usize = if max == 0 {
        0
    } else {
        max - 1
    };
    let mut out = text_of_range(&chars, 0, keep);
    out.push('\u{2026}');
    proof {
        assert(chars@.subrange(0, keep as int) =~= chars@.take(keep as int));
        if max == 0 {
            assert(out@ =~= seq!['\u{2026}']);
        }
    }
    out
}

/// `s` without the double quotes at its ends.
pub open spec fn unquoted(s: Seq<char>) -> Seq<char> {
    let from = leading_quotes(s);
    let rest = s.skip(from);
    rest.take(rest.len() - trailing_quotes(rest))
}

/// How many double quotes `s` begins with.
pub open spec fn leading_quotes(s: Seq<char>) -> int
    decreases s.len(),
{
    if s.len() > 0 && s[0] == '"' {
        1 + leading_quotes(s.skip(1))
    } else {
        0
    }
}

/// How many double quotes `s` ends with.
pub open spec fn trailing_quotes(s: Seq<char>) -> int
    decreases s.len(),
{
    if s.len() > 0 && s.last() == '"' {
        1 + trailing_quotes(s.drop_last())
    } else {
        0
    }
}

/// A key and its value, as a parameter of a header gives them: what stands
/// before the first `=`, trimmed, and what stands after it, trimmed and
/// without the double quotes at its ends. A parameter without `=` gives
/// nothing.
pub open spec fn header_pair(piece: Seq<char>) -> Option<(Seq<char>, Seq<char>)> {
    let eq = first_index(piece, '=');
    if eq >= piece.len() {
        None
    } else {
        Some((trimmed(piece.take(eq)), unquoted(trimmed(piece.skip(eq + 1)))))
    }
}

/// The keys and values of a list of parameters that commas part, in order.
/// One parameter that gives nothing spoils the list.
pub open spec fn header_pairs(rest: Seq<char>) -> Option<Seq<(Seq<char>, Seq<char>)>>
    decreases rest.len(),
{
    let comma = first_index(rest, ',');
    match header_pair(trimmed(rest.take(comma))) {
        None => None,
        Some(pair) => if comma < 0 || comma >= rest.len() {
            Some(seq![pair])
        } else {
            match header_pairs(rest.skip(comma + 1)) {
                None => None,
                Some(more) => Some(seq![pair] + more),
            }
        },
    }
}

/// The parameters of a header that asks for a bearer token: the header,
/// trimmed, must begin with the word `bearer`, in any case, and a space; what
/// follows, trimmed, is the list of parameters.
pub open spec fn bearer_params(header: Seq<char>) -> Option<Seq<(Seq<char>, Seq<char>)>> {
    let text = trimmed(header);
    let space = first_index(text, ' ');
    if lowercase(trimmed(text.take(space))) != "bearer"@ {
        None
    } else if space >= text.len() {
        None
    } else {
        header_pairs(trimmed(text.skip(space + 1)))
    }
}

/// The views of keys and values, in order.
pub open spec fn pair_views(pairs: Seq<(String, String)>) -> Seq<(Seq<char>, Seq<char>)> {
    Seq::new(pairs.len(), |i: int| (pairs[i].0@, pairs[i].1@))
}

/// The views of an optional list of keys and values.
pub open spec fn optional_pairs(pairs: Option<Vec<(String, String)>>) -> Option<
    Seq<(Seq<char>, Seq<char>)>,
> {
    match pairs {
        Some(p) => Some(pair_views(p@)),
        None => None,
    }
}

/// The bounds of `chars[from..to]` without the white space at its ends.
pub fn trim_range(chars: &Vec<char>, from: usize, to: usize) -> (bounds: (usize, usize))
    requires
        from <= to <= chars.len(),
    ensures
        from <= bounds.0 <= bounds.1 <= to,
        chars@.subrange(bounds.0 as int, bounds.1 as int) == trimmed(
            chars@.subrange(from as int, to as int),
        ),
{
    let ghost whole = chars@.subrange(from as int, to as int);
    let mut a: usize = from;
    proof {
        assert(whole.skip(0) =~= whole);
    }
    while a < to && is_whitespace(chars[a])
        invariant
            from <= a <= to <= chars.len(),
            whole == chars@.subrange(from as int, to as int),
            leading_spaces(whole) == (a - from) + leading_spaces(whole.skip(a - from)),
        decreases to - a,
    {
        proof {
            assert(whole.skip(a - from)[0] == chars@[a as int]);
            assert(whole.skip(a - from).skip(1) =~= whole.skip(a - from + 1));
        }
        a = a + 1;
    }
    proof {
        if a < to {
            assert(whole.skip(a - from)[0] == chars@[a as int]);
        }
        assert(leading_spaces(whole) == a - from);
    }
    let ghost rest = whole.skip(a - from);
    let mut b: usize = to;
    proof {
        assert(rest.take(rest.len() as int) =~= rest);
    }
    while b > a && is_whitespace(chars[b - 1])
        invariant
            from <= a <= b <= to <= chars.len(),
            whole == chars@.subrange(from as int, to as int),
            rest == whole.skip(a - from),
            trailing_spaces(rest) == (to - b) + trailing_spaces(rest.take(b - a)),
        decreases b,
    {
        proof {
            let seen = rest.take(b - a);
            assert(seen.last() == chars@[b - 1]);
            assert(seen.drop_last() =~= rest.take(b - a - 1));
        }
        b = b - 1;
    }
    proof {
        let seen = rest.take(b - a);
        if b > a {
            assert(seen.last() == chars@[b - 1]);
        }
        assert(trailing_spaces(rest) == to - b);
        assert(chars@.subrange(a as int, b as int) =~= rest.take(rest.len() - trailing_spaces(rest)));
    }
    (a, b)
}

/// The bounds of `chars[from..to]` without the double quotes at its ends.
pub fn unquote_range(chars: &Vec<char>, from: usize, to: usize) -> (bounds: (usize, usize))
    requires
        from <= to <= chars.len(),
    ensures
        from <= bounds.0 <= bounds.1 <= to,
        chars@.subrange(bounds.0 as int, bounds.1 as int) == unquoted(
            chars@.subrange(from as int, to as int),
        ),
{
    let ghost whole = chars@.subrange(from as int, to as int);
    let mut a: usize = from;
    proof {
        assert(whole.skip(0) =~= whole);
    }
    while a < to && chars[a] == '"'
        invariant
            from <= a <= to <= chars.len(),
            whole == chars@.subrange(from as int, to as int),
            leading_quotes(whole) == (a - from) + leading_quotes(whole.skip(a - from)),
        decreases to - a,
    {
        proof {
            assert(whole.skip(a - from)[0] == chars@[a as int]);
            assert(whole.skip(a - from).skip(1) =~= whole.skip(a - from + 1));
        }
        a = a + 1;
    }
    proof {
        if a < to {
            assert(whole.skip(a - from)[0] == chars@[a as int]);
        }
        assert(leading_quotes(whole) == a - from);
    }
    let ghost rest = whole.skip(a - from);
    let mut b: usize = to;
    proof {
        assert(rest.take(rest.len() as int) =~= rest);
    }
    while b > a && chars[b - 1] == '"'
        invariant
            from <= a <= b <= to <= chars.len(),
            whole == chars@.subrange(from as int, to as int),
            rest == whole.skip(a - from),
            trailing_quotes(rest) == (to - b) + trailing_quotes(rest.take(b - a)),
        decreases b,
    {
        proof {
            let seen = rest.take(b - a);
            assert(seen.last() == chars@[b - 1]);
            assert(seen.drop_last() =~= rest.take(b - a - 1));
        }
        b = b - 1;
    }
    proof {
        let seen = rest.take(b - a);
        if b > a {
            assert(seen.last() == chars@[b - 1]);
        }
        assert(trailing_quotes(rest) == to - b);
        assert(chars@.subrange(a as int, b as int) =~= rest.take(rest.len() - trailing_quotes(rest)));
    }
    (a, b)
}

/// The key and the value that the parameter `chars[from..to]` gives.
fn parse_pair(chars: &Vec<char>, from: usize, to: usize) -> (pair: Option<(String, String)>)
    requires
        from <= to <= chars.len(),
    ensures
        optional_pair(pair) == header_pair(chars@.subrange(from as int, to as int)),
{
    let ghost piece = chars@.subrange(from as int, to as int);
    let eq = find_first(chars, from, to, '=');
    if eq >= to - from {
        return None;
    }
    proof {
        assert(chars@.subrange(from as int, from + eq) =~= piece.take(eq as int));
        assert(chars@.subrange(from + eq + 1, to as int) =~= piece.skip(eq + 1));
    }
    let (ka, kb) = trim_range(chars, from, from + eq);
    let (va, vb) = trim_range(chars, from + eq + 1, to);
    let (qa, qb) = unquote_range(chars, va, vb);
    Some((text_of_range(chars, ka, kb), text_of_range(chars, qa, qb)))
}

/// The keys and values of the list of parameters `chars[from..to]`.
fn parse_pairs(chars: &Vec<char>, from: usize, to: usize) -> (pairs: Option<Vec<(String, String)>>)
    requires
        from <= to <= chars.len(),
    ensures
        optional_pairs(pairs) == header_pairs(chars@.subrange(from as int, to as int)),
    decreases to - from,
{
    let ghost rest = chars@.subrange(from as int, to as int);
    let comma = find_first(chars, from, to, ',');
    proof {
        assert(chars@.subrange(from as int, from + comma) =~= rest.take(comma as int));
    }
    let (a, b) = trim_range(chars, from, from + comma);
    let pair = match parse_pair(chars, a, b) {
        None => {
            return None;
        },
        Some(pair) => pair,
    };
    let mut out: Vec<(String, String)> = Vec::new();
    let ghost head = (pair.0@, pair.1@);
    out.push(pair);
    if comma >= to - from {
        proof {
            assert(pair_views(out@) =~= seq![head]);
        }
        return Some(out);
    }
    proof {
        assert(chars@.subrange(from + comma + 1, to as int) =~= rest.skip(comma + 1));
    }
    match parse_pairs(chars, from + comma + 1, to) {
        None => None,
        Some(mut more) => {
            let ghost tail = pair_views(more@);
            out.append(&mut more);
            proof {
                assert(pair_views(out@) =~= seq![head] + tail);
            }
            Some(out)
        },
    }
}

/// The parameters of a header that asks for a bearer token, as keys and
/// values in the order of the header. Where a key occurs twice, its later
/// value is the one that counts.
pub fn parse_bearer_auth_params(header_value: &str) -> (params: Option<Vec<(String, String)>>)
    ensures
        optional_pairs(params) == bearer_params(header_value@),
{
    let chars = chars_of(header_value);
    proof {
        assert(chars@.subrange(0, chars.len() as int) =~= chars@);
    }
    let (from, to) = trim_range(&chars, 0, chars.len());
    let ghost text = chars@.subrange(from as int, to as int);
    let space = find_first(&chars, from, to, ' ');
    proof {
        assert(chars@.subrange(from as int, from + space) =~= text.take(space as int));
    }
    let (sa, sb) = trim_range(&chars, from, from + space);
    let scheme = lowercase_range(&chars, sa, sb);
    let bearer = chars_of("bearer");
    proof {
        assert(scheme@.subrange(0, scheme.len() as int) =~= scheme@);
    }
    if !range_is(&scheme, 0, scheme.len(), &bearer) {
        return None;
    }
    if space >= to - from {
        return None;
    }
    proof {
        assert(chars@.subrange(from + space + 1, to as int) =~= text.skip(space + 1));
    }
    let (ra, rb) = trim_range(&chars, from + space + 1, to);
    parse_pairs(&chars, ra, rb)
}

/// The value of the last parameter with the key `key`.
pub open spec fn param_value(pairs: Seq<(Seq<char>, Seq<char>)>, key: Seq<char>) -> Option<
    Seq<char>,
>
    decreases pairs.len(),
{
    if pairs.len() == 0 {
        None
    } else if pairs.last().0 == key {
        Some(pairs.last().1)
    } else {
        param_value(pairs.drop_last(), key)
    }
}

/// The view of an optional text.
pub open spec fn optional_value(text: Option<String>) -> Option<Seq<char>> {
    match text {
        Some(t) => Some(t@),
        None => None,
    }
}

/// The value that counts for the key `key` among `params`.
pub fn lookup_param(params: &Vec<(String, String)>, key: &str) -> (value: Option<String>)
    ensures
        optional_value(value) == param_value(pair_views(params@), key@),
{
    let ghost views = pair_views(params@);
    let wanted = key.to_owned();
    let mut i: usize = params.len();
    proof {
        assert(views.take(views.len() as int) =~= views);
    }
    while i > 0
        invariant
            i <= params.len(),
            wanted@ == key@,
            views == pair_views(params@),
            param_value(views, key@) == param_value(views.take(i as int), key@),
        decreases i,
    {
        proof {
            let seen = views.take(i as int);
            assert(seen.last() == views[i - 1]);
            assert(seen.drop_last() =~= views.take(i - 1));
        }
        if params[i - 1].0 == wanted {
            return Some(params[i - 1].1.clone());
        }
        i = i - 1;
    }
    None
}

/// The address at which a registry lists the tags of a repository.
pub fn tags_url(registry: &str, repository: &str) -> (url: String)
    ensures
        url@ == "https://"@ + registry@ + "/v2/"@ + repository@ + "/tags/list"@,
{
    let mut url = join2("https://", registry);
    url.append("/v2/");
    url.append(repository);
    url.append("/tags/list");
    url
}

/// The scope to ask a token for where the registry names none: to pull from
/// the repository.
pub fn pull_scope(repository: &str) -> (scope: String)
    ensures
        scope@ == "repository:"@ + repository@ + ":pull"@,
{
    let mut scope = join2("repository:", repository);
    scope.append(":pull");
    scope
}

/// The line that heads the tags of a repository.
pub fn tags_header(registry: &str, repository: &str) -> (line: String)
    ensures
        line@ == "Tags for "@ + registry@ + "/"@ + repository@ + ":"@,
{
    let mut line = join2("Tags for ", registry);
    line.append("/");
    line.append(repository);
    line.append(":");
    line
}

/// The line that says that a repository has no tag.
pub fn no_tags_line(registry: &str, repository: &str) -> (line: String)
    ensures
        line@ == "No tags found for "@ + registry@ + "/"@ + repository@ + "."@,
{
    let mut line = join2("No tags found for ", registry);
    line.append("/");
    line.append(repository);
    line.append(".");
    line
}

/// The line that shows one tag of a repository: the reference to pull.
pub fn tag_line(registry: &str, repository: &str, tag: &str) -> (line: String)
    ensures
        line@ == registry@ + "/"@ + repository@ + ":"@ + tag@,
{
    let mut line = join2(registry, "/");
    line.append(repository);
    line.append(":");
    line.append(tag);
    line
}

/// Where the text `t` goes among the texts `sorted`: behind the last text
/// that is `t` or stands before it.
pub open spec fn insert_place(sorted: Seq<Seq<char>>, t: Seq<char>) -> int
    decreases sorted.len(),
{
    if sorted.len() == 0 {
        0
    } else if text_le(sorted.last(), t) {
        sorted.len() as int
    } else {
        insert_place(sorted.drop_last(), t)
    }
}

/// The texts `s` in order: each is put into its place among those before it.
pub open spec fn sorted_texts(s: Seq<Seq<char>>) -> Seq<Seq<char>>
    decreases s.len(),
{
    if s.len() == 0 {
        Seq::empty()
    } else {
        let rest = sorted_texts(s.drop_last());
        rest.insert(insert_place(rest, s.last()), s.last())
    }
}

/// Whether no text of `s` stands before a text that comes earlier in `s`.
pub open spec fn texts_ordered(s: Seq<Seq<char>>) -> bool {
    forall|i: int, j: int| 0 <= i < j < s.len() ==> text_le(#[trigger] s[i], #[trigger] s[j])
}

/// The place for a text is within the texts; the texts before it are the
/// text or stand before it, if they are in order, and the text stands before
/// those behind it.
pub proof fn lemma_insert_place(sorted: Seq<Seq<char>>, t: Seq<char>)
    ensures
        0 <= insert_place(sorted, t) <= sorted.len(),
        forall|j: int|
            insert_place(sorted, t) <= j < sorted.len() ==> text_le(t, #[trigger] sorted[j]),
        texts_ordered(sorted) ==> forall|i: int|
            0 <= i < insert_place(sorted, t) ==> text_le(#[trigger] sorted[i], t),
    decreases sorted.len(),
{
    if sorted.len() > 0 {
        if text_le(sorted.last(), t) {
            if texts_ordered(sorted) {
                assert forall|i: int| 0 <= i < sorted.len() implies text_le(
                    #[trigger] sorted[i],
                    t,
                ) by {
                    if i < sorted.len() - 1 {
                        assert(text_le(sorted[i], sorted[sorted.len() - 1]));
                        lemma_text_le_transitive(sorted[i], sorted.last(), t);
                    }
                }
            }
        } else {
            let rest = sorted.drop_last();
            lemma_insert_place(rest, t);
            lemma_text_le_total(sorted.last(), t);
            assert forall|j: int| insert_place(sorted, t) <= j < sorted.len() implies text_le(
                t,
                #[trigger] sorted[j],
            ) by {
                if j < sorted.len() - 1 {
                    assert(rest[j] == sorted[j]);
                }
            }
            if texts_ordered(sorted) {
                assert forall|i: int, j: int| 0 <= i < j < rest.len() implies text_le(
                    #[trigger] rest[i],
                    #[trigger] rest[j],
                ) by {
                    assert(text_le(sorted[i], sorted[j]));
                }
                assert forall|i: int| 0 <= i < insert_place(sorted, t) implies text_le(
                    #[trigger] sorted[i],
                    t,
                ) by {
                    assert(rest[i] == sorted[i]);
                }
            }
        }
    }
}

/// The texts in order are the same texts, each as often as before, and none
/// of them stands before one that comes earlier.
pub proof fn lemma_sorted_texts(s: Seq<Seq<char>>)
    ensures
        sorted_texts(s).len() == s.len(),
        sorted_texts(s).to_multiset() == s.to_multiset(),
        texts_ordered(sorted_texts(s)),
    decreases s.len(),
{
    if s.len() == 0 {
        assert(s =~= Seq::<Seq<char>>::empty());
    } else {
        let rest = sorted_texts(s.drop_last());
        let t = s.last();
        let k = insert_place(rest, t);
        lemma_sorted_texts(s.drop_last());
        lemma_insert_place(rest, t);
        let out = rest.insert(k, t);
        vstd::seq_lib::to_multiset_insert(rest, k, t);
        vstd::seq_lib::to_multiset_build(s.drop_last(), t);
        assert(s.drop_last().push(t) =~= s);
        assert forall|i: int, j: int| 0 <= i < j < out.len() implies text_le(
            #[trigger] out[i],
            #[trigger] out[j],
        ) by {
            if j < k {
                assert(text_le(rest[i], rest[j]));
            } else if j == k {
                assert(text_le(rest[i], t));
            } else if i < k {
                assert(text_le(rest[i], rest[j - 1]));
            } else if i == k {
                assert(text_le(t, rest[j - 1]));
            } else {
                assert(text_le(rest[i - 1], rest[j - 1]));
            }
        }
    }
}

/// The first `limit` of the texts `tags` in order.
pub open spec fn first_sorted(tags: Seq<Seq<char>>, limit: nat) -> Seq<Seq<char>> {
    let sorted = sorted_texts(tags);
    if limit < sorted.len() {
        sorted.take(limit as int)
    } else {
        sorted
    }
}

/// The views of texts.
pub open spec fn tag_views(tags: Seq<String>) -> Seq<Seq<char>> {
    Seq::new(tags.len(), |i: int| tags[i]@)
}

/// The tags to show of those that a registry lists: the first `limit` of
/// them in order.
pub fn sorted_tags(tags: Vec<String>, limit: usize) -> (out: Vec<String>)
    ensures
        tag_views(out@) == first_sorted(tag_views(tags@), limit as nat),
{
    let ghost all = tag_views(tags@);
    let mut sorted: Vec<String> = Vec::new();
    let mut i: usize = 0;
    proof {
        assert(all.take(0) =~= Seq::<Seq<char>>::empty());
        assert(tag_views(sorted@) =~= sorted_texts(all.take(0)));
    }
    while i < tags.len()
        invariant
            i <= tags.len(),
            all == tag_views(tags@),
            sorted.len() == i,
            tag_views(sorted@) == sorted_texts(all.take(i as int)),
        decreases tags.len() - i,
    {
        let tag = tags[i].clone();
        let chars = chars_of(tag.as_str());
        let ghost before = tag_views(sorted@);
        let mut k: usize = sorted.len();
        let mut found = false;
        proof {
            assert(before.take(sorted.len() as int) =~= before);
        }
        while k > 0 && !found
            invariant
                k <= sorted.len(),
                before == tag_views(sorted@),
                chars@ == tag@,
                insert_place(before, tag@) == if found {
                    k as int
                } else {
                    insert_place(before.take(k as int), tag@)
                },
            decreases k + if found { 0int } else { 1int },
        {
            proof {
                assert(before.take(k as int).last() == before[k - 1]);
                assert(before.take(k as int).drop_last() =~= before.take(k - 1));
                assert(before[k - 1] == sorted@[k - 1]@);
            }
            let other = chars_of(sorted[k - 1].as_str());
            if text_before_or_same(&other, &chars) {
                found = true;
            } else {
                k = k - 1;
            }
        }
        proof {
            if !found {
                assert(before.take(0) =~= Seq::<Seq<char>>::empty());
            }
        }
        sorted.insert(k, tag);
        proof {
            assert(tag_views(sorted@) =~= before.insert(k as int, tag@));
            assert(all.take(i + 1).drop_last() =~= all.take(i as int));
            assert(all.take(i + 1).last() == tag@);
        }
        i = i + 1;
    }
    proof {
        assert(all.take(tags.len() as int) =~= all);
        lemma_sorted_texts(all);
    }
    let ghost whole = tag_views(sorted@);
    sorted.truncate(limit);
    proof {
        if limit < whole.len() {
            assert(tag_views(sorted@) =~= whole.take(limit as int));
        } else {
            assert(tag_views(sorted@) =~= whole);
        }
    }
    sorted
}

} // verus!
