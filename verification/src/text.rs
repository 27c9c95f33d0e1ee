//! Strings as sequences of characters: what the standard operations give, and the few that the
//! bridge adds.
use vstd::prelude::*;
use vstd::utf8::encode_utf8;

verus! {

/// The characters with the Unicode property `White_Space`.
pub open spec fn is_white_space(c: char) -> bool {
    ||| '\u{9}' <= c <= '\u{d}'
    ||| c == '\u{20}'
    ||| c == '\u{85}'
    ||| c == '\u{a0}'
    ||| c == '\u{1680}'
    ||| '\u{2000}' <= c <= '\u{200a}'
    ||| c == '\u{2028}'
    ||| c == '\u{2029}'
    ||| c == '\u{202f}'
    ||| c == '\u{205f}'
    ||| c == '\u{3000}'
}

/// `s` without the white space in front.
pub open spec fn trimmed_start(s: Seq<char>) -> Seq<char>
    decreases s.len(),
{
    if s.len() > 0 && is_white_space(s[0]) {
        trimmed_start(s.skip(1))
    } else {
        s
    }
}

/// `s` without the white space behind.
pub open spec fn trimmed_end(s: Seq<char>) -> Seq<char>
    decreases s.len(),
{
    if s.len() > 0 && is_white_space(s.last()) {
        trimmed_end(s.drop_last())
    } else {
        s
    }
}

/// `s` without the white space at both ends.
pub open spec fn trimmed(s: Seq<char>) -> Seq<char> {
    trimmed_end(trimmed_start(s))
}

/// White space in front goes.
proof fn lemma_trimmed_start_between(before: Seq<char>, s: Seq<char>)
    requires
        forall|i: int| 0 <= i < before.len() ==> is_white_space(#[trigger] before[i]),
    ensures
        trimmed_start(before + s) == trimmed_start(s),
    decreases before.len(),
{
    if before.len() > 0 {
        assert((before + s)[0] == before[0]);
        assert((before + s).skip(1) =~= before.skip(1) + s);
        lemma_trimmed_start_between(before.skip(1), s);
    } else {
        assert(before + s =~= s);
    }
}

/// White space behind goes.
proof fn lemma_trimmed_end_between(s: Seq<char>, after: Seq<char>)
    requires
        forall|i: int| 0 <= i < after.len() ==> is_white_space(#[trigger] after[i]),
    ensures
        trimmed_end(s + after) == trimmed_end(s),
    decreases after.len(),
{
    if after.len() > 0 {
        assert((s + after).last() == after.last());
        assert((s + after).drop_last() =~= s + after.drop_last());
        lemma_trimmed_end_between(s, after.drop_last());
    } else {
        assert(s + after =~= s);
    }
}

/// What follows a text stays where white space in front of the text goes, unless the text is white
/// space altogether.
proof fn lemma_trimmed_start_before(s: Seq<char>, after: Seq<char>)
    ensures
        trimmed_start(s + after) == if trimmed_start(s).len() > 0 {
            trimmed_start(s) + after
        } else {
            trimmed_start(after)
        },
    decreases s.len(),
{
    if s.len() == 0 {
        assert(s + after =~= after);
    } else {
        assert((s + after)[0] == s[0]);
        if is_white_space(s[0]) {
            assert((s + after).skip(1) =~= s.skip(1) + after);
            lemma_trimmed_start_before(s.skip(1), after);
        }
    }
}

/// White space at the two ends goes.
pub proof fn lemma_trimmed_between(before: Seq<char>, s: Seq<char>, after: Seq<char>)
    requires
        forall|i: int| 0 <= i < before.len() ==> is_white_space(#[trigger] before[i]),
        forall|i: int| 0 <= i < after.len() ==> is_white_space(#[trigger] after[i]),
    ensures
        trimmed(before + s + after) == trimmed(s),
{
    assert(before + s + after =~= before + (s + after));
    lemma_trimmed_start_between(before, s + after);
    lemma_trimmed_start_before(s, after);
    if trimmed_start(s).len() > 0 {
        lemma_trimmed_end_between(trimmed_start(s), after);
    } else {
        assert(after + Seq::<char>::empty() =~= after);
        lemma_trimmed_start_between(after, Seq::empty());
        assert(trimmed_start(s) =~= Seq::<char>::empty());
    }
}

/// What is left begins with no white space.
proof fn lemma_trimmed_start_begins(s: Seq<char>)
    ensures
        trimmed_start(s).len() > 0 ==> !is_white_space(trimmed_start(s)[0]),
    decreases s.len(),
{
    if s.len() > 0 && is_white_space(s[0]) {
        lemma_trimmed_start_begins(s.skip(1));
    }
}

/// What is left ends with no white space, and begins as before.
proof fn lemma_trimmed_end_ends(s: Seq<char>)
    ensures
        trimmed_end(s).len() > 0 ==> !is_white_space(trimmed_end(s).last()) && trimmed_end(s)[0]
            == s[0],
    decreases s.len(),
{
    if s.len() > 0 && is_white_space(s.last()) {
        lemma_trimmed_end_ends(s.drop_last());
    }
}

/// A trimmed text has no white space at its ends.
pub proof fn lemma_trimmed_ends(s: Seq<char>)
    ensures
        trimmed(s).len() > 0 ==> !is_white_space(trimmed(s)[0]) && !is_white_space(
            trimmed(s).last(),
        ),
{
    lemma_trimmed_start_begins(s);
    lemma_trimmed_end_ends(trimmed_start(s));
}

/// A text without white space at its ends is its own trimmed form.
pub proof fn lemma_trimmed_is_whole(s: Seq<char>)
    requires
        s.len() > 0 ==> !is_white_space(s[0]) && !is_white_space(s.last()),
    ensures
        trimmed(s) == s,
{
}

/// What goes in front is white space.
proof fn lemma_before_trimmed(s: Seq<char>) -> (before: Seq<char>)
    ensures
        s == before + trimmed_start(s),
        forall|i: int| 0 <= i < before.len() ==> is_white_space(#[trigger] before[i]),
    decreases s.len(),
{
    if s.len() > 0 && is_white_space(s[0]) {
        let rest = lemma_before_trimmed(s.skip(1));
        let before = seq![s[0]] + rest;
        assert(s =~= seq![s[0]] + s.skip(1));
        assert(s =~= before + trimmed_start(s));
        assert forall|i: int| 0 <= i < before.len() implies is_white_space(
            #[trigger] before[i],
        ) by {
            if i > 0 {
                assert(before[i] == rest[i - 1]);
            }
        }
        before
    } else {
        assert(s =~= Seq::empty() + s);
        Seq::empty()
    }
}

/// What goes behind is white space.
proof fn lemma_behind_trimmed(s: Seq<char>) -> (after: Seq<char>)
    ensures
        s == trimmed_end(s) + after,
        forall|i: int| 0 <= i < after.len() ==> is_white_space(#[trigger] after[i]),
    decreases s.len(),
{
    if s.len() > 0 && is_white_space(s.last()) {
        let rest = lemma_behind_trimmed(s.drop_last());
        let after = rest.push(s.last());
        assert(s =~= s.drop_last().push(s.last()));
        assert(s =~= trimmed_end(s) + after);
        after
    } else {
        assert(s =~= s + Seq::empty());
        Seq::empty()
    }
}

/// What trimming takes away is white space: what stands in front, and what stands behind.
pub proof fn lemma_around_trimmed(s: Seq<char>) -> (ends: (Seq<char>, Seq<char>))
    ensures
        s == ends.0 + trimmed(s) + ends.1,
        forall|i: int| 0 <= i < ends.0.len() ==> is_white_space(#[trigger] ends.0[i]),
        forall|i: int| 0 <= i < ends.1.len() ==> is_white_space(#[trigger] ends.1[i]),
{
    let before = lemma_before_trimmed(s);
    let after = lemma_behind_trimmed(trimmed_start(s));
    assert(before + trimmed_start(s) =~= before + trimmed(s) + after);
    (before, after)
}

/// `str::trim` gives the string without the white space, in Unicode's sense, at its two ends.
pub assume_specification[ str::trim ](s: &str) -> (r: &str)
    ensures
        r@ == trimmed(s@),
;

/// The ASCII capital letters in lower case, every other character as it is.
pub open spec fn ascii_lower(c: char) -> char {
    if 'A' <= c <= 'Z' {
        (c as u32 + 32) as char
    } else {
        c
    }
}

/// `s` with its ASCII capital letters in lower case.
pub open spec fn lowered(s: Seq<char>) -> Seq<char> {
    s.map_values(|c: char| ascii_lower(c))
}

/// `str::to_ascii_lowercase` maps the letters `A` to `Z` to `a` to `z` and keeps the rest.
pub assume_specification[ str::to_ascii_lowercase ](s: &str) -> (r: std::string::String)
    ensures
        r@ == lowered(s@),
;

/// `String::push` appends one character.
pub assume_specification[ std::string::String::push ](s: &mut std::string::String, c: char)
    ensures
        final(s)@ == old(s)@.push(c),
;

/// The characters of an optional string.
pub open spec fn text_of(text: Option<String>) -> Option<Seq<char>> {
    match text {
        Some(s) => Some(s@),
        None => None,
    }
}

/// The characters of each string.
pub open spec fn texts_of(texts: Seq<String>) -> Seq<Seq<char>> {
    Seq::new(texts.len(), |i: int| texts[i]@)
}

/// The characters of `s`, one by one.
pub fn chars_of(s: &str) -> (chars: Vec<char>)
    ensures
        chars@ == s@,
{
    let mut chars: Vec<char> = Vec::new();
    for c in it: s.chars()
        invariant
            chars@ == s@.take(it.index()),
            it.seq() == s@,
    {
        chars.push(c);
    }
    chars
}

/// The string that consists of the characters from `from` up to `to`.
pub fn text_between(chars: &Vec<char>, from: usize, to: usize) -> (text: String)
    requires
        from <= to <= chars@.len(),
    ensures
        text@ == chars@.subrange(from as int, to as int),
{
    let mut text = String::new();
    let mut at: usize = from;
    while at < to
        invariant
            from <= at <= to <= chars@.len(),
            text@ == chars@.subrange(from as int, at as int),
        decreases to - at,
    {
        text.push(chars[at]);
        at = at + 1;
    }
    text
}

/// Whether two strings hold the same characters.
pub fn same_text(a: &str, b: &str) -> (same: bool)
    ensures
        same == (a@ == b@),
{
    let left = a.as_bytes();
    let right = b.as_bytes();
    proof {
        vstd::utf8::encode_utf8_decode_utf8(a@);
        vstd::utf8::encode_utf8_decode_utf8(b@);
    }
    if left.len() != right.len() {
        return false;
    }
    let mut at: usize = 0;
    while at < left.len()
        invariant
            at <= left@.len(),
            left@.len() == right@.len(),
            left@ == encode_utf8(a@),
            right@ == encode_utf8(b@),
            forall|i: int| 0 <= i < at ==> left@[i] == right@[i],
        decreases left@.len() - at,
    {
        if left[at] != right[at] {
            assert(left@ != right@);
            return false;
        }
        at = at + 1;
    }
    assert(left@ =~= right@);
    true
}

/// The position of the first `c` in `s`, or the length of `s` where there is none.
pub open spec fn first_of(s: Seq<char>, c: char) -> int
    decreases s.len(),
{
    if s.len() == 0 || s[0] == c {
        0
    } else {
        1 + first_of(s.skip(1), c)
    }
}

/// The pieces of `s` between the occurrences of `c`: one more than there are occurrences.
pub open spec fn split_on(s: Seq<char>, c: char) -> Seq<Seq<char>>
    decreases s.len(),
{
    let at = first_of(s, c);
    if 0 <= at < s.len() {
        seq![s.take(at)] + split_on(s.skip(at + 1), c)
    } else {
        seq![s]
    }
}

/// `first_of` is where `c` stands for the first time.
pub proof fn lemma_first_of(s: Seq<char>, c: char)
    ensures
        0 <= first_of(s, c) <= s.len(),
        forall|i: int| 0 <= i < first_of(s, c) ==> s[i] != c,
        first_of(s, c) < s.len() ==> s[first_of(s, c)] == c,
    decreases s.len(),
{
    if s.len() > 0 && s[0] != c {
        lemma_first_of(s.skip(1), c);
        assert forall|i: int| 0 <= i < first_of(s, c) implies s[i] != c by {
            if i > 0 {
                assert(s[i] == s.skip(1)[i - 1]);
            }
        }
    }
}

/// The first place at which `c` stands, with no other `c` before it, is `first_of`.
pub proof fn lemma_is_first_of(s: Seq<char>, c: char, at: int)
    requires
        0 <= at <= s.len(),
        forall|i: int| 0 <= i < at ==> s[i] != c,
        at < s.len() ==> s[at] == c,
    ensures
        first_of(s, c) == at,
{
    lemma_first_of(s, c);
}

/// The first place from `from` on, before `to`, at which `c` stands; `to` where there is none.
pub fn find_char(chars: &Vec<char>, from: usize, to: usize, c: char) -> (at: usize)
    requires
        from <= to <= chars@.len(),
    ensures
        from <= at <= to,
        at == from + first_of(chars@.subrange(from as int, to as int), c),
        at < to ==> chars@[at as int] == c,
{
    let mut at: usize = from;
    while at < to
        invariant
            from <= at <= to <= chars@.len(),
            forall|i: int| from <= i < at ==> chars@[i] != c,
        ensures
            at < to ==> chars@[at as int] == c,
        decreases to - at,
    {
        if chars[at] == c {
            break;
        }
        at = at + 1;
    }
    proof {
        lemma_is_first_of(chars@.subrange(from as int, to as int), c, at - from);
    }
    at
}

/// Whether `s` begins with `prefix`.
pub open spec fn begins_with(s: Seq<char>, prefix: Seq<char>) -> bool {
    s.len() >= prefix.len() && s.take(prefix.len() as int) == prefix
}

/// Whether `chars`, from `at` on, begins with `prefix`.
pub fn begins_at(chars: &Vec<char>, at: usize, prefix: &Vec<char>) -> (yes: bool)
    requires
        at <= chars@.len(),
    ensures
        yes == begins_with(chars@.skip(at as int), prefix@),
{
    let length: usize = chars.len();
    if length - at < prefix.len() {
        return false;
    }
    let mut i: usize = 0;
    while i < prefix.len()
        invariant
            length == chars@.len(),
            i <= prefix@.len() <= length - at,
            forall|k: int| 0 <= k < i ==> chars@[at + k] == prefix@[k],
        decreases prefix@.len() - i,
    {
        if chars[at + i] != prefix[i] {
            assert(chars@.skip(at as int).take(prefix@.len() as int)[i as int] != prefix@[i as int]);
            return false;
        }
        i = i + 1;
    }
    assert(chars@.skip(at as int).take(prefix@.len() as int) =~= prefix@);
    true
}

/// Whether `needle` occurs in `s`.
pub open spec fn occurs_in(needle: Seq<char>, s: Seq<char>) -> bool {
    exists|at: int| 0 <= at <= s.len() && #[trigger] begins_with(s.skip(at), needle)
}

/// Whether `needle` occurs in `s`.
pub fn contains_text(s: &str, needle: &str) -> (yes: bool)
    ensures
        yes == occurs_in(needle@, s@),
{
    let chars = chars_of(s);
    let wanted = chars_of(needle);
    let mut at: usize = 0;
    while at < chars.len()
        invariant
            at <= chars@.len(),
            chars@ == s@,
            wanted@ == needle@,
            forall|k: int| 0 <= k < at ==> !#[trigger] begins_with(s@.skip(k), needle@),
        decreases chars@.len() - at,
    {
        if begins_at(&chars, at, &wanted) {
            return true;
        }
        at = at + 1;
    }
    begins_at(&chars, at, &wanted)
}

/// Splits `s` at the occurrences of `c`.
pub fn split_text(s: &str, c: char) -> (pieces: Vec<String>)
    ensures
        texts_of(pieces@) == split_on(s@, c),
{
    let chars = chars_of(s);
    let end: usize = chars.len();
    let mut pieces: Vec<String> = Vec::new();
    let mut from: usize = 0;
    assert(chars@.subrange(0, end as int) =~= s@);
    assert(texts_of(pieces@) =~= Seq::empty());
    assert(split_on(s@, c) =~= Seq::<Seq<char>>::empty() + split_on(s@, c));
    loop
        invariant
            from <= end == chars@.len(),
            split_on(s@, c) == texts_of(pieces@) + split_on(
                chars@.subrange(from as int, end as int),
                c,
            ),
        decreases end - from,
    {
        let ghost left = chars@.subrange(from as int, end as int);
        let ghost before = pieces@;
        let stop = find_char(&chars, from, end, c);
        pieces.push(text_between(&chars, from, stop));
        proof {
            lemma_first_of(left, c);
            assert(texts_of(pieces@) =~= texts_of(before).push(
                chars@.subrange(from as int, stop as int),
            ));
            if stop < end {
                assert(left.take(first_of(left, c)) =~= chars@.subrange(from as int, stop as int));
                assert(left.skip(first_of(left, c) + 1) =~= chars@.subrange(stop + 1, end as int));
            }
        }
        if stop == end {
            assert(split_on(s@, c) =~= texts_of(pieces@));
            return pieces;
        }
        from = stop + 1;
        assert(split_on(s@, c) =~= texts_of(pieces@) + split_on(
            chars@.subrange(from as int, end as int),
            c,
        ));
    }
}

/// White space, by the numbers of its characters.
pub proof fn law_white_space_by_number(c: char)
    ensures
        is_white_space(c) <==> {
            let n = c as int;
            ||| 0x9 <= n <= 0xd
            ||| n == 0x20
            ||| n == 0x85
            ||| n == 0xa0
            ||| n == 0x1680
            ||| 0x2000 <= n <= 0x200a
            ||| n == 0x2028
            ||| n == 0x2029
            ||| n == 0x202f
            ||| n == 0x205f
            ||| n == 0x3000
        },
{
}

/// A text is what trimming leaves of it, with white space around; and what trimming leaves neither
/// begins nor ends with white space. A text of white space alone leaves nothing.
pub proof fn law_trimming_takes_away_white_space_only(s: Seq<char>)
    ensures
        exists|before: Seq<char>, after: Seq<char>|
            {
                &&& #[trigger] (before + trimmed(s) + after) == s
                &&& forall|i: int| 0 <= i < before.len() ==> is_white_space(#[trigger] before[i])
                &&& forall|i: int| 0 <= i < after.len() ==> is_white_space(#[trigger] after[i])
            },
        trimmed(s).len() > 0 ==> !is_white_space(trimmed(s)[0]) && !is_white_space(
            trimmed(s).last(),
        ),
        trimmed(s).len() == 0 <==> forall|i: int|
            0 <= i < s.len() ==> is_white_space(#[trigger] s[i]),
{
    let (before, after) = lemma_around_trimmed(s);
    lemma_trimmed_ends(s);
    assert(before + trimmed(s) + after == s);
    if trimmed(s).len() == 0 {
        assert forall|i: int| 0 <= i < s.len() implies is_white_space(#[trigger] s[i]) by {
            if i < before.len() {
                assert(s[i] == before[i]);
            } else {
                assert(s[i] == after[i - before.len()]);
            }
        }
    } else {
        assert(s[before.len() as int] == trimmed(s)[0]);
    }
}

/// Lowering keeps the length, adds 32 to the number of each letter from `A` to `Z`, and keeps every
/// other character.
pub proof fn law_lowering_changes_capital_letters_only(s: Seq<char>, i: int)
    requires
        0 <= i < s.len(),
    ensures
        lowered(s).len() == s.len(),
        0x41 <= s[i] as int <= 0x5a ==> lowered(s)[i] as int == s[i] as int + 32,
        !(0x41 <= s[i] as int <= 0x5a) ==> lowered(s)[i] == s[i],
{
}

/// The characters of strings are those strings' own, one for one.
pub proof fn law_texts_are_taken_one_for_one(texts: Seq<String>, i: int)
    requires
        0 <= i < texts.len(),
    ensures
        texts_of(texts).len() == texts.len(),
        texts_of(texts)[i] == texts[i]@,
        text_of(Some(texts[i])) == Some(texts[i]@),
        text_of(None) is None,
{
}

/// The pieces with `c` between each two of them.
pub open spec fn joined(pieces: Seq<Seq<char>>, c: char) -> Seq<char>
    decreases pieces.len(),
{
    if pieces.len() == 0 {
        Seq::empty()
    } else if pieces.len() == 1 {
        pieces[0]
    } else {
        pieces[0].push(c) + joined(pieces.skip(1), c)
    }
}

/// Splitting loses nothing: the pieces joined again are the text, there is at least one, and none
/// of them holds the character that it was split at.
pub proof fn law_pieces_join_to_the_text(s: Seq<char>, c: char)
    ensures
        split_on(s, c).len() > 0,
        joined(split_on(s, c), c) == s,
        forall|i: int, k: int|
            0 <= i < split_on(s, c).len() && 0 <= k < split_on(s, c)[i].len()
                ==> #[trigger] split_on(s, c)[i][k] != c,
    decreases s.len(),
{
    lemma_first_of(s, c);
    let at = first_of(s, c);
    let pieces = split_on(s, c);
    if at < s.len() {
        let rest = s.skip(at + 1);
        law_pieces_join_to_the_text(rest, c);
        assert(pieces.skip(1) =~= split_on(rest, c));
        assert(pieces[0] == s.take(at));
        assert(s =~= s.take(at).push(c) + rest);
        assert forall|i: int, k: int|
            0 <= i < pieces.len() && 0 <= k < pieces[i].len() implies #[trigger] pieces[i][k]
            != c by {
            if i > 0 {
                assert(pieces[i] == split_on(rest, c)[i - 1]);
                assert(split_on(rest, c)[i - 1][k] != c);
            }
        }
    } else {
        assert forall|i: int, k: int|
            0 <= i < pieces.len() && 0 <= k < pieces[i].len() implies #[trigger] pieces[i][k]
            != c by {
            assert(pieces[i] == s);
        }
    }
}

/// A text occurs in another exactly where that is the text with something before and behind it.
pub proof fn law_text_occurs_where_it_stands(needle: Seq<char>, s: Seq<char>)
    ensures
        occurs_in(needle, s) <==> exists|before: Seq<char>, after: Seq<char>|
            #[trigger] (before + needle + after) == s,
{
    if occurs_in(needle, s) {
        let at = choose|at: int| 0 <= at <= s.len() && #[trigger] begins_with(s.skip(at), needle);
        let tail = s.skip(at);
        let after = tail.skip(needle.len() as int);
        assert(tail =~= tail.take(needle.len() as int) + after);
        assert(s =~= s.take(at) + needle + after);
    }
    if exists|before: Seq<char>, after: Seq<char>| #[trigger] (before + needle + after) == s {
        let (before, after) = choose|before: Seq<char>, after: Seq<char>|
            #[trigger] (before + needle + after) == s;
        let at = before.len() as int;
        assert(s.skip(at).take(needle.len() as int) =~= needle);
        assert(begins_with(s.skip(at), needle));
    }
}

/// A text begins with another exactly where it is that one with something behind it.
pub proof fn law_text_begins_with_what_it_continues(s: Seq<char>, prefix: Seq<char>)
    ensures
        begins_with(s, prefix) <==> exists|rest: Seq<char>| s == #[trigger] (prefix + rest),
{
    if begins_with(s, prefix) {
        assert(s =~= prefix + s.skip(prefix.len() as int));
    }
    if exists|rest: Seq<char>| s == #[trigger] (prefix + rest) {
        let rest = choose|rest: Seq<char>| s == #[trigger] (prefix + rest);
        assert(s.take(prefix.len() as int) =~= prefix);
    }
}

} // verus!
