//! Addresses of endpoints: a base URL, path segments, a query.
use crate::outcome::{optional, outcome};
use vstd::prelude::*;
use vstd::utf8::*;

verus! {

/// The normal form of the URL `text`, or the message that says why it is none.
pub uninterp spec fn url_parsed(text: Seq<char>) -> Result<Seq<char>, Seq<char>>;

/// The URL `base` with the path segments `segments` appended; nothing where `base` is no URL
/// with a path of segments.
pub uninterp spec fn url_joined(base: Seq<char>, segments: Seq<Seq<char>>) -> Option<Seq<char>>;

/// [`url_joined`] with `name=value` appended to the query.
pub uninterp spec fn url_queried(
    base: Seq<char>,
    segments: Seq<Seq<char>>,
    name: Seq<char>,
    value: Seq<char>,
) -> Option<Seq<char>>;

/// The texts that a list of string slices holds.
pub open spec fn slices(strings: Seq<&str>) -> Seq<Seq<char>> {
    strings.map_values(|s: &str| s@)
}

/// How many characters of `text` come before the first that is one of `stops`.
pub open spec fn until(text: Seq<char>, stops: Set<char>) -> nat
    decreases text.len(),
{
    if text.len() == 0 || stops.contains(text[0]) {
        0
    } else {
        1 + until(text.drop_first(), stops)
    }
}

/// Where the scheme of the URL `url` ends.
pub open spec fn scheme_end(url: Seq<char>) -> nat {
    until(url, set![':'])
}

/// Where the path of the URL `url` ends, and the query or the fragment starts.
pub open spec fn path_end(url: Seq<char>) -> nat {
    until(url, set!['?', '#'])
}

/// Where the fragment of the URL `url` starts; its end if it has none.
pub open spec fn fragment_start(url: Seq<char>) -> nat {
    until(url, set!['#'])
}

/// A slash follows the scheme of the URL `url`, so that its path is made of segments.
pub open spec fn hierarchical(url: Seq<char>) -> bool {
    scheme_end(url) + 1 < url.len() && url[scheme_end(url) as int + 1] == '/'
}

/// Where the path of the URL `url` starts: after the host, which two slashes announce, or after
/// the scheme.
pub open spec fn path_start(url: Seq<char>) -> nat {
    let after = scheme_end(url) + 1;
    if after + 1 < url.len() && url[after as int] == '/' && url[after as int + 1] == '/' {
        after + 2 + until(url.skip(after as int + 2), set!['/', '?', '#'])
    } else {
        after
    }
}

/// The path of the URL `url` is a slash alone.
pub open spec fn rooted(url: Seq<char>) -> bool {
    path_start(url) + 1 == path_end(url) && url[path_start(url) as int] == '/'
}

/// The URL `url` has no path.
pub open spec fn bare(url: Seq<char>) -> bool {
    path_start(url) == path_end(url)
}

/// The URL `url` names a file.
pub open spec fn names_file(url: Seq<char>) -> bool {
    url.take(scheme_end(url) as int) == "file"@
}

/// The scheme of the URL `url` is one of those that read a backslash as a slash.
pub open spec fn special(url: Seq<char>) -> bool {
    let scheme = url.take(scheme_end(url) as int);
    ||| scheme == "http"@
    ||| scheme == "https"@
    ||| scheme == "ws"@
    ||| scheme == "wss"@
    ||| scheme == "ftp"@
    ||| scheme == "file"@
}

/// `base` is a URL whose path is made of segments.
pub open spec fn has_segments(base: Seq<char>) -> bool {
    url_parsed(base) matches Ok(url) && hierarchical(url)
}

/// `segment` is one of the two that name a place in a path, and so add nothing to one.
pub open spec fn dots(segment: Seq<char>) -> bool {
    segment == seq!['.'] || segment == seq!['.', '.']
}

/// `segment` without the tabs and line breaks, which URLs drop.
pub open spec fn stripped(segment: Seq<char>) -> Seq<char> {
    segment.filter(|c: char| c != '\t' && c != '\n' && c != '\r')
}

/// Dropping tabs and line breaks does not turn `segment` into dots.
pub open spec fn steady(segment: Seq<char>) -> bool {
    dots(segment) || !dots(stripped(segment))
}

/// The segments that add to a path.
pub open spec fn kept(segments: Seq<Seq<char>>) -> Seq<Seq<char>> {
    segments.filter(|segment: Seq<char>| !dots(segment))
}

/// The path of `url` may start with `segment`: it is not empty, and where `url` names a file, it
/// is not taken for a drive, with a bar or with a tab or line break behind the letter.
pub open spec fn opens(url: Seq<char>, segment: Seq<char>) -> bool {
    &&& stripped(segment).len() > 0
    &&& names_file(url) ==> stripped(segment) == segment && !(segment.len() == 2 && segment[1]
        == '|')
}

/// All of `segments` are steady, and where they start the path of `url`, the first that adds to
/// it may do so. They start it where there is no path or it is a slash alone.
pub open spec fn all_steady(url: Seq<char>, segments: Seq<Seq<char>>) -> bool {
    &&& forall|i: int| 0 <= i < segments.len() ==> steady(#[trigger] segments[i])
    &&& (rooted(url) || bare(url)) && kept(segments).len() > 0 ==> opens(url, kept(segments)[0])
}

/// The number that a hexadecimal digit stands for.
pub open spec fn hex_value(digit: char) -> int {
    if '0' <= digit <= '9' {
        digit as int - '0' as int
    } else if 'A' <= digit <= 'F' {
        digit as int - 'A' as int + 10
    } else {
        digit as int - 'a' as int + 10
    }
}

/// The bytes that `text` stands for, each `%` and two digits being one of them.
pub open spec fn percent_decoded(text: Seq<char>) -> Seq<u8>
    decreases text.len(),
{
    if text.len() == 0 {
        Seq::empty()
    } else if text[0] == '%' && text.len() >= 3 {
        seq![(16 * hex_value(text[1]) + hex_value(text[2])) as u8] + percent_decoded(text.skip(3))
    } else {
        encode_utf8(seq![text[0]]) + percent_decoded(text.skip(1))
    }
}

/// `piece` is one segment of a path, with nothing in it that ends a segment, and it stands for
/// `segment`.
pub open spec fn spells(piece: Seq<char>, segment: Seq<char>) -> bool {
    &&& !piece.contains('/')
    &&& !piece.contains('?')
    &&& !piece.contains('#')
    &&& percent_decoded(piece) == encode_utf8(stripped(segment))
}

/// `pieces` with a slash between each two.
pub open spec fn slashed(pieces: Seq<Seq<char>>) -> Seq<char>
    decreases pieces.len(),
{
    if pieces.len() == 0 {
        Seq::empty()
    } else if pieces.len() == 1 {
        pieces[0]
    } else {
        slashed(pieces.drop_last()) + seq!['/'] + pieces.last()
    }
}

/// `url` is `base` with its path continued by `pieces`, one for each of `segments`. A slash comes
/// before them unless the path of `base` is a slash alone. What follows the path stays.
pub open spec fn continued_by(
    url: Seq<char>,
    base: Seq<char>,
    segments: Seq<Seq<char>>,
    pieces: Seq<Seq<char>>,
) -> bool {
    let end = path_end(base) as int;
    let slash = if rooted(base) {
        Seq::empty()
    } else {
        seq!['/']
    };
    &&& pieces.len() == segments.len()
    &&& forall|i: int| 0 <= i < pieces.len() ==> spells(#[trigger] pieces[i], segments[i])
    &&& url == base.take(end) + slash + slashed(pieces) + base.skip(end)
}

/// `url` is `base` with its path continued by `segments`, one segment for each of them.
pub open spec fn continued(url: Seq<char>, base: Seq<char>, segments: Seq<Seq<char>>) -> bool {
    if segments.len() == 0 {
        url == base
    } else {
        exists|pieces: Seq<Seq<char>>| #[trigger] continued_by(url, base, segments, pieces)
    }
}

/// What separates a pair from the rest of the query of `url`.
pub open spec fn separator(url: Seq<char>) -> Seq<char> {
    if path_end(url) == fragment_start(url) {
        seq!['?']
    } else if path_end(url) + 1 == fragment_start(url) {
        Seq::empty()
    } else {
        seq!['&']
    }
}

/// The URL `url` with `name=value` at the end of its query.
pub open spec fn with_pair(url: Seq<char>, name: Seq<char>, value: Seq<char>) -> Seq<char> {
    let end = fragment_start(url) as int;
    url.take(end) + separator(url) + name + seq!['='] + value + url.skip(end)
}

/// `url` is `base` with its path continued by `segments`, and with `name=value` at the end of its
/// query.
pub open spec fn continued_with_pair(
    url: Seq<char>,
    base: Seq<char>,
    segments: Seq<Seq<char>>,
    name: Seq<char>,
    value: Seq<char>,
) -> bool {
    exists|path: Seq<char>|
        #![trigger with_pair(path, name, value)]
        continued(path, base, segments) && url == with_pair(path, name, value)
}

/// `text` is made of the letters from a to z.
pub open spec fn letters(text: Seq<char>) -> bool {
    forall|i: int| 0 <= i < text.len() ==> 'a' <= #[trigger] text[i] <= 'z'
}

/// How many bytes of a URL a byte of a segment takes: none if it is dropped, one if it stands for
/// itself, and three if it is percent-encoded.
pub open spec fn byte_size(byte: u8, special: bool) -> nat {
    if byte == 0x09 || byte == 0x0A || byte == 0x0D {
        0
    } else if byte <= 0x20 || byte >= 0x7F || byte == 0x22 || byte == 0x23 || byte == 0x25 || byte
        == 0x2F || byte == 0x3C || byte == 0x3E || byte == 0x3F || (byte == 0x5C && special) || byte
        == 0x60 || byte == 0x7B || byte == 0x7D {
        3
    } else {
        1
    }
}

/// How many bytes of a URL the bytes of a segment take.
pub open spec fn bytes_size(bytes: Seq<u8>, special: bool) -> nat
    decreases bytes.len(),
{
    if bytes.len() == 0 {
        0
    } else {
        byte_size(bytes[0], special) + bytes_size(bytes.drop_first(), special)
    }
}

/// How many bytes of a URL `segments` take, with a slash before each of them. None comes before a
/// segment where the path is a slash alone: it is `rooted`, or it is `bare` and only segments that
/// take nothing came before.
pub open spec fn segments_size(
    segments: Seq<Seq<char>>,
    special: bool,
    rooted: bool,
    bare: bool,
) -> nat
    decreases segments.len(),
{
    if segments.len() == 0 {
        0
    } else if dots(segments[0]) {
        segments_size(segments.drop_first(), special, rooted, bare)
    } else {
        let size = bytes_size(encode_utf8(segments[0]), special);
        let slash: nat = if rooted {
            0
        } else {
            1
        };
        slash + size + segments_size(
            segments.drop_first(),
            special,
            (rooted || bare) && size == 0,
            false,
        )
    }
}

/// How many bytes `segments` add to the URL `url`. A drive letter in the path of a file may bring
/// a slash of its own, which is counted in any case.
pub open spec fn growth(url: Seq<char>, segments: Seq<Seq<char>>) -> nat {
    segments_size(segments, special(url), rooted(url) && !names_file(url), bare(url))
}

/// How many bytes a pair that takes `size` adds to the query of `url`, with what separates it.
pub open spec fn pair_growth(url: Seq<char>, size: Option<nat>) -> nat {
    match size {
        Some(size) => size + separator(url).len(),
        None => 0,
    }
}

/// When `segments`, and a pair that takes `pair` bytes, have been added to `base`, its path ends,
/// and its fragment starts if there is one, within `u32::MAX` bytes: these are the places that a
/// URL keeps. Vacuous where `base` is no URL whose path is made of segments.
pub open spec fn url_fits(
    base: Seq<char>,
    segments: Seq<Seq<char>>,
    pair: Option<nat>,
) -> bool {
    has_segments(base) ==> {
        let url = url_parsed(base)->Ok_0;
        &&& path_end(url) + growth(url, segments) <= u32::MAX
        &&& fragment_start(url) < url.len() ==> fragment_start(url) + growth(url, segments)
            + pair_growth(url, pair) <= u32::MAX
    }
}

/// Calls `url::Url::parse` and takes the URL's text. The claims: the text, or that of the error,
/// depends on `text` alone; and the URL's text is ASCII.
#[verifier::external_body]
pub(crate) fn parse_url(text: &str) -> (url: Result<String, String>)
    ensures
        outcome(url) == url_parsed(text@),
        url matches Ok(found) ==> is_ascii_chars(found@),
{
    url::Url::parse(text).map(String::from).map_err(|error| error.to_string())
}

/// Calls `url::PathSegmentsMut::extend`, of which `push` is the case of one segment, on the path
/// of the URL `base`. The claims: the URL's text depends on the arguments alone; there is one if
/// and only if `base` is a URL with a slash behind its scheme, whatever the segments; and where
/// no segment comes to dots by the loss of tabs and line breaks, and the first may start a path
/// if it does, the URL is that of `base` with its path continued by one percent-encoded segment
/// for each that is not dots. The call panics where the end of the path or the start of the
/// fragment comes to lie behind `u32::MAX` bytes.
#[verifier::external_body]
pub(crate) fn join_segments(base: &str, segments: &[&str]) -> (url: Option<String>)
    requires
        url_fits(base@, slices(segments@), None),
    ensures
        optional(url) == url_joined(base@, slices(segments@)),
        url is Some <==> has_segments(base@),
        url matches Some(found) ==> (all_steady(url_parsed(base@)->Ok_0, slices(segments@))
            ==> continued(found@, url_parsed(base@)->Ok_0, kept(slices(segments@)))),
{
    let mut url = url::Url::parse(base).ok()?;
    url.path_segments_mut().ok()?.extend(segments);
    Some(url.into())
}

/// Calls `append_pair` on `url::Url::query_pairs_mut`, after the segments were appended. The
/// claims: the URL's text depends on the arguments alone; there is one where there is one
/// without the pair; and where [`join_segments`] continues the path of `base`, so does this, with
/// the pair at the end of the query. The call panics where the end of the path or the start of the
/// fragment comes to lie behind `u32::MAX` bytes.
#[verifier::external_body]
pub(crate) fn join_segments_and_query(
    base: &str,
    segments: &[&str],
    name: &str,
    value: &str,
) -> (url: Option<String>)
    requires
        letters(name@),
        letters(value@),
        url_fits(base@, slices(segments@), Some(name@.len() + value@.len() + 1)),
    ensures
        optional(url) == url_queried(base@, slices(segments@), name@, value@),
        url is Some <==> has_segments(base@),
        url matches Some(found) ==> (all_steady(url_parsed(base@)->Ok_0, slices(segments@))
            ==> continued_with_pair(
            found@,
            url_parsed(base@)->Ok_0,
            kept(slices(segments@)),
            name@,
            value@,
        )),
{
    let mut url = url::Url::parse(base).ok()?;
    url.path_segments_mut().ok()?.extend(segments);
    url.query_pairs_mut().append_pair(name, value);
    Some(url.into())
}

proof fn lemma_until(text: Seq<char>, stops: Set<char>, n: int)
    requires
        0 <= n <= text.len(),
        forall|i: int| 0 <= i < n ==> !stops.contains(#[trigger] text[i]),
        n < text.len() ==> stops.contains(text[n]),
    ensures
        until(text, stops) == n,
    decreases text.len(),
{
    if n > 0 {
        let rest = text.drop_first();
        assert forall|i: int| 0 <= i < n - 1 implies !stops.contains(#[trigger] rest[i]) by {
            assert(rest[i] == text[i + 1]);
        }
        lemma_until(rest, stops, n - 1);
    }
}

/// Where the first `a`, `b` or `c` stands in `text`, from `start` on.
fn position(text: &str, start: usize, a: u8, b: u8, c: u8) -> (at: usize)
    requires
        is_ascii_chars(text@),
        start <= text@.len(),
        a < 0x80,
        b < 0x80,
        c < 0x80,
    ensures
        start <= at <= text@.len(),
        at - start == until(text@.skip(start as int), set![a as char, b as char, c as char]),
{
    let bytes = text.as_bytes();
    proof {
        is_ascii_chars_encode_utf8(text@);
    }
    let ghost stops = set![a as char, b as char, c as char];
    let mut at: usize = start;
    while at < bytes.len() && bytes[at] != a && bytes[at] != b && bytes[at] != c
        invariant
            start <= at <= bytes@.len(),
            bytes@.len() == text@.len(),
            is_ascii_chars(text@),
            forall|i: int| 0 <= i < text@.len() ==> #[trigger] text@[i] as u8 == bytes@[i],
            a < 0x80,
            b < 0x80,
            c < 0x80,
            stops == set![a as char, b as char, c as char],
            forall|i: int| start <= i < at ==> !stops.contains(#[trigger] text@[i]),
        decreases bytes@.len() - at,
    {
        assert(text@[at as int] as u8 == bytes@[at as int]);
        at = at + 1;
    }
    proof {
        let rest = text@.skip(start as int);
        assert forall|i: int| 0 <= i < at - start implies !stops.contains(#[trigger] rest[i]) by {
            assert(rest[i] == text@[start + i]);
        }
        if at < text@.len() {
            assert(text@[at as int] as u8 == bytes@[at as int]);
            assert(rest[at - start] == text@[at as int]);
        }
        lemma_until(rest, stops, at - start);
    }
    at
}

/// Whether the first `end` characters of `text` are `name`.
fn starts_with(text: &str, end: usize, name: &str) -> (same: bool)
    requires
        is_ascii_chars(text@),
        is_ascii_chars(name@),
        end <= text@.len(),
    ensures
        same == (text@.take(end as int) == name@),
{
    let bytes = text.as_bytes();
    let wanted = name.as_bytes();
    proof {
        is_ascii_chars_encode_utf8(text@);
        is_ascii_chars_encode_utf8(name@);
    }
    if wanted.len() != end {
        return false;
    }
    let mut next: usize = 0;
    while next < end
        invariant
            next <= end <= text@.len(),
            end == name@.len(),
            bytes@.len() == text@.len(),
            wanted@.len() == name@.len(),
            is_ascii_chars(text@),
            is_ascii_chars(name@),
            forall|i: int| 0 <= i < text@.len() ==> #[trigger] text@[i] as u8 == bytes@[i],
            forall|i: int| 0 <= i < name@.len() ==> #[trigger] name@[i] as u8 == wanted@[i],
            forall|i: int| 0 <= i < next ==> text@[i] == name@[i],
        decreases end - next,
    {
        assert(text@[next as int] as u8 == bytes@[next as int]);
        assert(name@[next as int] as u8 == wanted@[next as int]);
        if bytes[next] != wanted[next] {
            assert(text@.take(end as int)[next as int] != name@[next as int]);
            return false;
        }
        next = next + 1;
    }
    assert(text@.take(end as int) =~= name@);
    true
}

/// Whether `segment` is one of the two that add nothing to a path.
fn is_dots(segment: &str) -> (found: bool)
    ensures
        found == dots(segment@),
{
    proof {
        reveal_strlit(".");
        reveal_strlit("..");
        assert("."@ =~= seq!['.']);
        assert(".."@ =~= seq!['.', '.']);
    }
    let segment = segment.to_owned();
    segment == ".".to_owned() || segment == "..".to_owned()
}

/// How many bytes of a URL a byte of a segment takes.
fn size_of_byte(byte: u8, special: bool) -> (size: u64)
    ensures
        size == byte_size(byte, special),
{
    if byte == 0x09 || byte == 0x0A || byte == 0x0D {
        0
    } else if byte <= 0x20 || byte >= 0x7F || byte == 0x22 || byte == 0x23 || byte == 0x25 || byte
        == 0x2F || byte == 0x3C || byte == 0x3E || byte == 0x3F || (byte == 0x5C && special) || byte
        == 0x60 || byte == 0x7B || byte == 0x7D {
        3
    } else {
        1
    }
}

/// What is left of `budget` bytes when `bytes` have taken theirs.
fn left_by_bytes(bytes: &[u8], special: bool, budget: u64) -> (left: Option<u64>)
    ensures
        match left {
            Some(rest) => rest + bytes_size(bytes@, special) == budget,
            None => bytes_size(bytes@, special) > budget,
        },
{
    let mut rest: u64 = budget;
    let mut next: usize = 0;
    assert(bytes@.skip(0) =~= bytes@);
    while next < bytes.len()
        invariant
            next <= bytes@.len(),
            budget - rest + bytes_size(bytes@.skip(next as int), special) == bytes_size(
                bytes@,
                special,
            ),
            rest <= budget,
        decreases bytes@.len() - next,
    {
        let size = size_of_byte(bytes[next], special);
        assert(bytes@.skip(next as int).drop_first() =~= bytes@.skip(next + 1));
        if size > rest {
            return None;
        }
        rest = rest - size;
        next = next + 1;
    }
    Some(rest)
}

/// What is left of `budget` bytes when `segments` have taken theirs.
fn left_by_segments(
    segments: &[&str],
    special: bool,
    rooted: bool,
    bare: bool,
    budget: u64,
) -> (left: Option<u64>)
    ensures
        match left {
            Some(rest) => rest + segments_size(slices(segments@), special, rooted, bare) == budget,
            None => segments_size(slices(segments@), special, rooted, bare) > budget,
        },
{
    let ghost all = slices(segments@);
    let mut rest: u64 = budget;
    let mut root = rooted;
    let mut empty = bare;
    let mut next: usize = 0;
    assert(all.skip(0) =~= all);
    while next < segments.len()
        invariant
            next <= segments@.len(),
            all == slices(segments@),
            budget - rest + segments_size(all.skip(next as int), special, root, empty)
                == segments_size(all, special, rooted, bare),
            rest <= budget,
        decreases segments@.len() - next,
    {
        let segment: &str = segments[next];
        proof {
            assert(all.skip(next as int).drop_first() =~= all.skip(next + 1));
            assert(all.skip(next as int)[0] == segment@);
        }
        if !is_dots(segment) {
            if !root {
                if rest == 0 {
                    return None;
                }
                rest = rest - 1;
            }
            match left_by_bytes(segment.as_bytes(), special, rest) {
                None => {
                    return None;
                },
                Some(less) => {
                    root = (root || empty) && less == rest;
                    empty = false;
                    rest = less;
                },
            }
        }
        next = next + 1;
    }
    Some(rest)
}

/// Whether `segments`, and a pair that takes `pair` bytes, can be added to the URL `base`.
pub fn fits(base: &str, segments: &[&str], pair: Option<u64>) -> (fit: bool)
    ensures
        fit == url_fits(
            base@,
            slices(segments@),
            match pair {
                Some(size) => Some(size as nat),
                None => None,
            },
        ),
{
    match parse_url(base) {
        Err(_) => true,
        Ok(url) => {
            let text = url.as_str();
            let bytes = text.as_bytes();
            proof {
                is_ascii_chars_encode_utf8(text@);
                assert(text@.skip(0) =~= text@);
                assert(set![':', ':', ':'] =~= set![':']);
                assert(set!['?', '#', '#'] =~= set!['?', '#']);
                assert(set!['#', '#', '#'] =~= set!['#']);
            }
            let scheme: usize = position(text, 0, 0x3A, 0x3A, 0x3A);
            if bytes.len() - scheme <= 1 || bytes[scheme + 1] != 0x2F {
                assert(scheme + 1 < text@.len() ==> text@[scheme + 1] as u8 == bytes@[scheme + 1]);
                return true;
            }
            assert(text@[scheme + 1] as u8 == bytes@[scheme + 1]);
            let path: usize = path_position(text, scheme);
            let end: usize = position(text, 0, 0x3F, 0x23, 0x23);
            let fragment: usize = position(text, 0, 0x23, 0x23, 0x23);
            let file = is_file(text, scheme);
            let root = end > 0 && path == end - 1 && bytes[path] == 0x2F;
            assert(root == rooted(text@)) by {
                if end > 0 && path == end - 1 {
                    assert(text@[path as int] as u8 == bytes@[path as int]);
                }
            }
            let limit: u64 = u32::MAX as u64;
            let special = is_special(text, scheme);
            match left_by_segments(segments, special, root && !file, path == end, limit) {
                None => false,
                Some(rest) => {
                    if end as u64 > rest {
                        return false;
                    }
                    if fragment == bytes.len() {
                        return true;
                    }
                    let extra: u64 = match pair {
                        None => 0,
                        Some(size) => {
                            if size > limit {
                                return false;
                            }
                            if end < fragment && end + 1 == fragment {
                                size
                            } else {
                                size + 1
                            }
                        },
                    };
                    extra <= rest && fragment as u64 <= rest - extra
                },
            }
        },
    }
}

/// Where the path of the URL `text` starts, given where its scheme ends.
fn path_position(text: &str, scheme: usize) -> (at: usize)
    requires
        is_ascii_chars(text@),
        scheme == scheme_end(text@),
        hierarchical(text@),
    ensures
        at == path_start(text@),
        at < text@.len() || at == text@.len(),
{
    let bytes = text.as_bytes();
    proof {
        is_ascii_chars_encode_utf8(text@);
        assert(text@[scheme + 1] as u8 == bytes@[scheme + 1]);
    }
    if bytes.len() - scheme > 2 && bytes[scheme + 2] == 0x2F {
        assert(text@[scheme + 2] as u8 == bytes@[scheme + 2]);
        position(text, scheme + 3, 0x2F, 0x3F, 0x23)
    } else {
        assert(scheme + 2 < text@.len() ==> text@[scheme + 2] as u8 == bytes@[scheme + 2]);
        scheme + 1
    }
}

/// Whether the URL `text` names a file, given where its scheme ends.
fn is_file(text: &str, scheme: usize) -> (file: bool)
    requires
        is_ascii_chars(text@),
        scheme == scheme_end(text@),
        scheme <= text@.len(),
    ensures
        file == names_file(text@),
{
    proof {
        reveal_strlit("file");
    }
    starts_with(text, scheme, "file")
}

/// Whether the URL `text` reads a backslash as a slash, given where its scheme ends.
fn is_special(text: &str, scheme: usize) -> (found: bool)
    requires
        is_ascii_chars(text@),
        scheme == scheme_end(text@),
        scheme <= text@.len(),
    ensures
        found == special(text@),
{
    proof {
        reveal_strlit("http");
        reveal_strlit("https");
        reveal_strlit("ws");
        reveal_strlit("wss");
        reveal_strlit("ftp");
    }
    starts_with(text, scheme, "http") || starts_with(text, scheme, "https") || starts_with(
        text,
        scheme,
        "ws",
    ) || starts_with(text, scheme, "wss") || starts_with(text, scheme, "ftp") || is_file(
        text,
        scheme,
    )
}

/// A segment after others is kept unless it is dots.
pub proof fn lemma_kept_push(segments: Seq<Seq<char>>, segment: Seq<char>)
    ensures
        kept(segments.push(segment)) == if dots(segment) {
            kept(segments)
        } else {
            kept(segments).push(segment)
        },
{
    let all = segments.push(segment);
    assert(all.drop_last() =~= segments);
    reveal(Seq::filter);
}

/// A segment without tabs and line breaks stays as it is.
pub proof fn lemma_stripped(segment: Seq<char>)
    requires
        !segment.contains('\t'),
        !segment.contains('\n'),
        !segment.contains('\r'),
    ensures
        stripped(segment) == segment,
    decreases segment.len(),
{
    reveal(Seq::filter);
    if segment.len() > 0 {
        let less = segment.drop_last();
        assert forall|c: char| less.contains(c) implies segment.contains(c) by {
            let i = choose|i: int| 0 <= i < less.len() && less[i] == c;
            assert(segment[i] == c);
        }
        assert(segment.contains(segment[segment.len() - 1]));
        lemma_stripped(less);
        assert(less.push(segment.last()) =~= segment);
    }
}

/// `segment` is not empty and not dots, and holds no tab or line break.
pub open spec fn plain(segment: Seq<char>) -> bool {
    &&& segment.len() > 0
    &&& !dots(segment)
    &&& !segment.contains('\t')
    &&& !segment.contains('\n')
    &&& !segment.contains('\r')
}

/// All of `segments` are plain.
pub open spec fn all_plain(segments: Seq<Seq<char>>) -> bool {
    forall|i: int| 0 <= i < segments.len() ==> plain(#[trigger] segments[i])
}

/// Plain segments are all kept, and steady in any URL that does not name a file.
pub proof fn plain_segments_are_kept(url: Seq<char>, segments: Seq<Seq<char>>)
    requires
        all_plain(segments),
    ensures
        kept(segments) == segments,
        !names_file(url) ==> all_steady(url, segments),
    decreases segments.len(),
{
    if segments.len() > 0 {
        let less = segments.drop_last();
        assert(less.push(segments.last()) =~= segments);
        assert forall|i: int| 0 <= i < less.len() implies plain(#[trigger] less[i]) by {
            assert(plain(segments[i]));
        }
        plain_segments_are_kept(url, less);
        lemma_kept_push(less, segments.last());
        assert(plain(segments[segments.len() - 1]));
        assert forall|i: int| 0 <= i < segments.len() implies steady(#[trigger] segments[i]) by {
            assert(plain(segments[i]));
            lemma_stripped(segments[i]);
        }
        assert(plain(segments[0]));
        lemma_stripped(segments[0]);
    } else {
        reveal(Seq::filter);
        assert(kept(segments) =~= segments);
    }
}

} // verus!
