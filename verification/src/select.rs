//! Dotted paths into a JSON tree.
//!
//! A path is a list of tokens with dots between them. A token is the name of a member, followed by
//! any number of array positions in square brackets: `task.status.update.parts[0].text`. A token
//! may lack the name (`[2]`) or the positions. White space around a path and a leading `payload.`
//! are ignored, and the empty path, like `payload` alone, leads to the root. A path that leads
//! nowhere selects nothing.
use vstd::prelude::*;

use crate::json::{element, member, Json, JsonView};
use crate::text::{
    begins_at, begins_with, chars_of, find_char, first_of, is_white_space, lemma_around_trimmed,
    lemma_first_of, lemma_is_first_of, lemma_trimmed_between, lemma_trimmed_ends,
    lemma_trimmed_is_whole, split_on, text_between, trimmed,
};

verus! {

/// Whether `c` is a decimal digit.
pub open spec fn is_digit(c: char) -> bool {
    '0' <= c <= '9'
}

/// The number that a sequence of decimal digits stands for.
pub open spec fn decimal(digits: Seq<char>) -> nat
    decreases digits.len(),
{
    if digits.len() == 0 {
        0
    } else {
        decimal(digits.drop_last()) * 10 + (digits.last() as nat - '0' as nat) as nat
    }
}

/// The digits of a position: a plus sign in front of them is left out.
pub open spec fn position_digits(text: Seq<char>) -> Seq<char> {
    if text.len() > 0 && text[0] == '+' {
        text.skip(1)
    } else {
        text
    }
}

/// The array position that `text` stands for: decimal digits, at least one.
pub open spec fn position_of(text: Seq<char>) -> Option<nat> {
    let digits = position_digits(text);
    if digits.len() > 0 && forall|i: int| 0 <= i < digits.len() ==> is_digit(#[trigger] digits[i]) {
        Some(decimal(digits))
    } else {
        None
    }
}

/// Where the bracketed positions `steps` lead from `value`.
pub open spec fn resolve_steps(value: JsonView, steps: Seq<char>) -> Option<JsonView>
    decreases steps.len(),
{
    if steps.len() == 0 {
        Some(value)
    } else if steps[0] != '[' {
        None
    } else {
        let inner = steps.skip(1);
        let close = first_of(inner, ']');
        if 0 <= close < inner.len() {
            match position_of(inner.take(close)) {
                Some(index) => match element(value, index) {
                    Some(next) => resolve_steps(next, inner.skip(close + 1)),
                    None => None,
                },
                None => None,
            }
        } else {
            None
        }
    }
}

/// Where one token leads from `value`.
pub open spec fn resolve_token_view(value: JsonView, token: Seq<char>) -> Option<JsonView> {
    let name = token.take(first_of(token, '['));
    let steps = token.skip(first_of(token, '['));
    if name.len() == 0 {
        resolve_steps(value, steps)
    } else {
        match member(value, name) {
            Some(next) => resolve_steps(next, steps),
            None => None,
        }
    }
}

/// Where a list of tokens leads from `value`.
pub open spec fn resolve_tokens(value: JsonView, tokens: Seq<Seq<char>>) -> Option<JsonView>
    decreases tokens.len(),
{
    if tokens.len() == 0 {
        Some(value)
    } else {
        match resolve_token_view(value, tokens[0]) {
            Some(next) => resolve_tokens(next, tokens.skip(1)),
            None => None,
        }
    }
}

/// A path without a leading `payload.`; `payload` alone is the empty path.
pub open spec fn without_payload(path: Seq<char>) -> Seq<char> {
    if begins_with(path, "payload."@) {
        path.skip("payload."@.len() as int)
    } else if path == "payload"@ {
        Seq::empty()
    } else {
        path
    }
}

/// What a path selects.
pub open spec fn select_view(root: JsonView, path: Seq<char>) -> Option<JsonView> {
    let rest = without_payload(trimmed(path));
    if rest.len() == 0 {
        Some(root)
    } else {
        resolve_tokens(root, split_on(rest, '.'))
    }
}

/// The number that the digits before `to` stand for grows with every further digit.
proof fn lemma_decimal_push(chars: Seq<char>, from: int, at: int)
    requires
        0 <= from <= at < chars.len(),
    ensures
        decimal(chars.subrange(from, at + 1)) == decimal(chars.subrange(from, at)) * 10 + (
        chars[at] as nat - '0' as nat) as nat,
{
    assert(chars.subrange(from, at + 1).drop_last() =~= chars.subrange(from, at));
}

/// Reads an array position. One beyond the machine's range comes out as the greatest of that
/// range, at which no array has an element either.
fn read_position(chars: &Vec<char>, from: usize, to: usize) -> (position: Option<usize>)
    requires
        from <= to <= chars@.len(),
    ensures
        match (position, position_of(chars@.subrange(from as int, to as int))) {
            (Some(i), Some(n)) => i == (if n <= usize::MAX { n } else { usize::MAX as nat }),
            (None, None) => true,
            _ => false,
        },
{
    let ghost text = chars@.subrange(from as int, to as int);
    let start: usize = if from < to && chars[from] == '+' {
        from + 1
    } else {
        from
    };
    let ghost digits = position_digits(text);
    assert(digits =~= chars@.subrange(start as int, to as int));
    if start == to {
        return None;
    }
    let mut value: usize = 0;
    let mut at: usize = start;
    while at < to
        invariant
            start <= at <= to <= chars@.len(),
            text == chars@.subrange(from as int, to as int),
            digits == position_digits(text),
            digits == chars@.subrange(start as int, to as int),
            forall|i: int| 0 <= i < at - start ==> is_digit(#[trigger] digits[i]),
            value == ({
                let n = decimal(chars@.subrange(start as int, at as int));
                if n <= usize::MAX { n } else { usize::MAX as nat }
            }),
        decreases to - at,
    {
        let c = chars[at];
        assert(digits[at - start] == c);
        if c < '0' || '9' < c {
            return None;
        }
        let digit: usize = (c as u32 - '0' as u32) as usize;
        proof {
            lemma_decimal_push(chars@, start as int, at as int);
        }
        value = if value <= (usize::MAX - digit) / 10 {
            value * 10 + digit
        } else {
            usize::MAX
        };
        at = at + 1;
    }
    Some(value)
}

/// Where one token, the characters from `from` up to `to`, leads from `value`.
fn resolve_token<'a>(value: &'a Json, chars: &Vec<char>, from: usize, to: usize) -> (found: Option<
    &'a Json,
>)
    requires
        from <= to <= chars@.len(),
    ensures
        match found {
            Some(json) => resolve_token_view(value@, chars@.subrange(from as int, to as int))
                == Some(json@),
            None => resolve_token_view(value@, chars@.subrange(from as int, to as int)) is None,
        },
{
    let ghost token = chars@.subrange(from as int, to as int);
    let name_end = find_char(chars, from, to, '[');
    proof {
        lemma_first_of(token, '[');
        assert(token.take(first_of(token, '[')) =~= chars@.subrange(from as int, name_end as int));
        assert(token.skip(first_of(token, '[')) =~= chars@.subrange(name_end as int, to as int));
    }
    let mut current: &Json = value;
    if name_end > from {
        let name = text_between(chars, from, name_end);
        match value.get(name.as_str()) {
            Some(next) => {
                current = next;
            },
            None => {
                return None;
            },
        }
    }
    let mut at: usize = name_end;
    while at < to
        invariant
            name_end <= at <= to <= chars@.len(),
            token == chars@.subrange(from as int, to as int),
            resolve_token_view(value@, token) == resolve_steps(
                current@,
                chars@.subrange(at as int, to as int),
            ),
        decreases to - at,
    {
        let ghost steps = chars@.subrange(at as int, to as int);
        if chars[at] != '[' {
            return None;
        }
        let close = find_char(chars, at + 1, to, ']');
        proof {
            let inner = steps.skip(1);
            assert(inner =~= chars@.subrange(at + 1, to as int));
            lemma_first_of(inner, ']');
            if close < to {
                assert(inner.take(first_of(inner, ']')) =~= chars@.subrange(
                    at + 1,
                    close as int,
                ));
                assert(inner.skip(first_of(inner, ']') + 1) =~= chars@.subrange(
                    close + 1,
                    to as int,
                ));
            }
        }
        if close == to {
            return None;
        }
        match read_position(chars, at + 1, close) {
            Some(index) => match current.at(index) {
                Some(next) => {
                    current = next;
                },
                None => {
                    return None;
                },
            },
            None => {
                return None;
            },
        }
        at = close + 1;
    }
    assert(chars@.subrange(at as int, to as int) =~= Seq::empty());
    Some(current)
}

/// The part of `root` that `path` selects.
pub fn select<'a>(root: &'a Json, path: &str) -> (found: Option<&'a Json>)
    ensures
        match found {
            Some(json) => select_view(root@, path@) == Some(json@),
            None => select_view(root@, path@) is None,
        },
{
    let chars = chars_of(path.trim());
    let end: usize = chars.len();
    let dotted = chars_of("payload.");
    let bare = chars_of("payload");
    let ghost rest = without_payload(trimmed(path@));
    assert(chars@.skip(0) =~= chars@);
    let mut from: usize = 0;
    if begins_at(&chars, 0, &dotted) {
        from = dotted.len();
    } else if begins_at(&chars, 0, &bare) && end == bare.len() {
        assert(chars@.take(bare@.len() as int) =~= chars@);
        from = end;
    } else {
        assert(chars@ == bare@ ==> chars@.take(bare@.len() as int) =~= chars@);
    }
    assert(rest =~= chars@.subrange(from as int, end as int));
    if from == end {
        return Some(root);
    }
    let mut current: &Json = root;
    loop
        invariant
            from <= end == chars@.len(),
            resolve_tokens(root@, split_on(rest, '.')) == resolve_tokens(
                current@,
                split_on(chars@.subrange(from as int, end as int), '.'),
            ),
            rest.len() > 0,
            rest == without_payload(trimmed(path@)),
        decreases end - from,
    {
        let ghost left = chars@.subrange(from as int, end as int);
        let stop = find_char(&chars, from, end, '.');
        proof {
            lemma_first_of(left, '.');
            if stop < end {
                assert(left.take(first_of(left, '.')) =~= chars@.subrange(
                    from as int,
                    stop as int,
                ));
                assert(left.skip(first_of(left, '.') + 1) =~= chars@.subrange(
                    stop + 1,
                    end as int,
                ));
            }
            let tokens = split_on(left, '.');
            assert(tokens[0] == chars@.subrange(from as int, stop as int));
            assert(tokens.skip(1) =~= (if stop < end {
                split_on(chars@.subrange(stop + 1, end as int), '.')
            } else {
                Seq::empty()
            }));
        }
        match resolve_token(current, &chars, from, stop) {
            Some(next) => {
                current = next;
            },
            None => {
                return None;
            },
        }
        if stop == end {
            assert(resolve_tokens(current@, Seq::empty()) == Some(current@));
            return Some(current);
        }
        from = stop + 1;
    }
}

/// White space around a path does not matter.
pub proof fn law_white_space_around_a_path_does_not_matter(
    root: JsonView,
    before: Seq<char>,
    path: Seq<char>,
    after: Seq<char>,
)
    requires
        forall|i: int| 0 <= i < before.len() ==> is_white_space(#[trigger] before[i]),
        forall|i: int| 0 <= i < after.len() ==> is_white_space(#[trigger] after[i]),
    ensures
        select_view(root, before + path + after) == select_view(root, path),
{
    lemma_trimmed_between(before, path, after);
}

/// Whether a path begins at once: its first character is no white space, or it is blank.
pub open spec fn begins_at_once(path: Seq<char>) -> bool {
    trimmed(path).len() == 0 || !is_white_space(path[0])
}

/// Whether a path ends at once: its last character is no white space, or it is blank.
pub open spec fn ends_at_once(path: Seq<char>) -> bool {
    trimmed(path).len() == 0 || !is_white_space(path.last())
}

/// A path that begins at once is its trimmed form with white space behind, or white space.
proof fn lemma_begins_at_once(path: Seq<char>) -> (after: Seq<char>)
    requires
        begins_at_once(path),
    ensures
        path == trimmed(path) + after,
        forall|i: int| 0 <= i < after.len() ==> is_white_space(#[trigger] after[i]),
{
    let (before, after) = lemma_around_trimmed(path);
    if trimmed(path).len() == 0 {
        assert(path =~= before + after);
        assert(path =~= trimmed(path) + path);
        assert forall|i: int| 0 <= i < path.len() implies is_white_space(#[trigger] path[i]) by {
            if i < before.len() {
                assert(path[i] == before[i]);
            } else {
                assert(path[i] == after[i - before.len()]);
            }
        }
        path
    } else {
        if before.len() > 0 {
            assert(path[0] == before[0]);
        }
        assert(path =~= trimmed(path) + after);
        after
    }
}

/// A path that ends at once is its trimmed form with white space in front, or white space.
proof fn lemma_ends_at_once(path: Seq<char>) -> (before: Seq<char>)
    requires
        ends_at_once(path),
    ensures
        path == before + trimmed(path),
        forall|i: int| 0 <= i < before.len() ==> is_white_space(#[trigger] before[i]),
{
    let (before, after) = lemma_around_trimmed(path);
    if trimmed(path).len() == 0 {
        assert(path =~= before + after);
        assert(path =~= path + trimmed(path));
        assert forall|i: int| 0 <= i < path.len() implies is_white_space(#[trigger] path[i]) by {
            if i < before.len() {
                assert(path[i] == before[i]);
            } else {
                assert(path[i] == after[i - before.len()]);
            }
        }
        path
    } else {
        if after.len() > 0 {
            assert(path.last() == after.last());
        }
        assert(path =~= before + trimmed(path));
        before
    }
}

/// A leading `payload.` does not matter, unless the path behind it has one of its own, or does not
/// begin at once.
pub proof fn law_leading_payload_does_not_matter(root: JsonView, path: Seq<char>)
    requires
        begins_at_once(path),
        without_payload(trimmed(path)) == trimmed(path),
    ensures
        select_view(root, "payload."@ + path) == select_view(root, path),
{
    reveal_strlit("payload.");
    let after = lemma_begins_at_once(path);
    let bare = trimmed(path);
    let long = "payload."@ + bare;
    lemma_trimmed_ends(path);
    assert(long[0] == 'p');
    if bare.len() > 0 {
        assert(long.last() == bare.last());
    } else {
        assert(long.last() == '.');
    }
    lemma_trimmed_is_whole(long);
    assert("payload."@ + path =~= Seq::<char>::empty() + long + after);
    lemma_trimmed_between(Seq::empty(), long, after);
    assert(long.take("payload."@.len() as int) =~= "payload."@);
    assert(long.skip("payload."@.len() as int) =~= bare);
}

/// The empty path, and `payload` alone, lead to the root.
pub proof fn law_empty_path_leads_to_the_root(root: JsonView)
    ensures
        select_view(root, Seq::empty()) == Some(root),
        select_view(root, "payload"@) == Some(root),
{
    reveal_strlit("payload");
    reveal_strlit("payload.");
    lemma_trimmed_is_whole("payload"@);
}

/// The tokens of two paths with a dot between them are the tokens of the one and of the other.
proof fn lemma_split_joined(a: Seq<char>, b: Seq<char>)
    ensures
        split_on(a.push('.') + b, '.') == split_on(a, '.') + split_on(b, '.'),
    decreases a.len(),
{
    let joined = a.push('.') + b;
    lemma_first_of(a, '.');
    let at = first_of(a, '.');
    assert(joined[a.len() as int] == '.');
    assert forall|i: int| 0 <= i < at implies joined[i] != '.' by {
        assert(joined[i] == a[i]);
    }
    if at < a.len() {
        assert(joined[at] == a[at]);
        lemma_is_first_of(joined, '.', at);
        assert(joined.take(at) =~= a.take(at));
        assert(joined.skip(at + 1) =~= a.skip(at + 1).push('.') + b);
        lemma_split_joined(a.skip(at + 1), b);
        assert(split_on(joined, '.') =~= split_on(a, '.') + split_on(b, '.'));
    } else {
        lemma_is_first_of(joined, '.', at);
        assert(joined.take(at) =~= a);
        assert(joined.skip(at + 1) =~= b);
    }
}

/// Tokens lead on from where the tokens before them lead.
proof fn lemma_resolve_joined(value: JsonView, a: Seq<Seq<char>>, b: Seq<Seq<char>>)
    ensures
        resolve_tokens(value, a + b) == match resolve_tokens(value, a) {
            Some(next) => resolve_tokens(next, b),
            None => None,
        },
    decreases a.len(),
{
    if a.len() == 0 {
        assert(a + b =~= b);
    } else {
        assert((a + b)[0] == a[0]);
        assert((a + b).skip(1) =~= a.skip(1) + b);
        if let Some(next) = resolve_token_view(value, a[0]) {
            lemma_resolve_joined(next, a.skip(1), b);
        }
    }
}

/// What a path selects once white space and a leading `payload` are gone.
spec fn select_bare(root: JsonView, rest: Seq<char>) -> Option<JsonView> {
    if rest.len() == 0 {
        Some(root)
    } else {
        resolve_tokens(root, split_on(rest, '.'))
    }
}

/// The empty path has one token, which stays where it is.
proof fn lemma_empty_token(value: JsonView)
    ensures
        resolve_tokens(value, split_on(Seq::empty(), '.')) == Some(value),
{
    let empty = Seq::<char>::empty();
    assert(split_on(empty, '.') =~= seq![empty]);
    assert(empty.take(0) =~= empty);
    assert(empty.skip(0) =~= empty);
    assert(resolve_token_view(value, empty) == Some(value));
    assert(split_on(empty, '.').skip(1) =~= Seq::empty());
    assert(resolve_tokens(value, Seq::empty()) == Some(value));
}

/// Bare paths compose.
proof fn lemma_bare_paths_compose(root: JsonView, a: Seq<char>, b: Seq<char>)
    ensures
        select_bare(root, a.push('.') + b) == match select_bare(root, a) {
            Some(value) => select_bare(value, b),
            None => None,
        },
{
    lemma_split_joined(a, b);
    lemma_resolve_joined(root, split_on(a, '.'), split_on(b, '.'));
    if a.len() == 0 {
        assert(a =~= Seq::empty());
        lemma_empty_token(root);
    }
    if b.len() == 0 {
        assert(b =~= Seq::empty());
        if let Some(value) = select_bare(root, a) {
            lemma_empty_token(value);
        }
    }
}

/// Paths compose: a path that goes on behind a dot selects from what the path before selects. There
/// is to be no white space at the dot, and no leading `payload` behind it.
pub proof fn law_paths_compose(root: JsonView, a: Seq<char>, b: Seq<char>)
    requires
        ends_at_once(a),
        begins_at_once(b),
        without_payload(trimmed(b)) == trimmed(b),
    ensures
        select_view(root, a.push('.') + b) == match select_view(root, a) {
            Some(value) => select_view(value, b),
            None => None,
        },
{
    reveal_strlit("payload.");
    reveal_strlit("payload");
    let before = lemma_ends_at_once(a);
    let after = lemma_begins_at_once(b);
    let first = trimmed(a);
    let second = trimmed(b);
    let joined = first.push('.') + second;
    lemma_trimmed_ends(a);
    lemma_trimmed_ends(b);
    if first.len() > 0 {
        assert(joined[0] == first[0]);
    } else {
        assert(joined[0] == '.');
    }
    if second.len() > 0 {
        assert(joined.last() == second.last());
    } else {
        assert(joined.last() == '.');
    }
    lemma_trimmed_is_whole(joined);
    assert(a.push('.') + b =~= before + joined + after);
    lemma_trimmed_between(before, joined, after);
    assert(joined[first.len() as int] == '.');
    assert(joined != "payload"@) by {
        if joined == "payload"@ {
            assert("payload"@[first.len() as int] == '.');
        }
    }
    let n = "payload."@.len() as int;
    if begins_with(first, "payload."@) {
        assert(joined.take(n) =~= first.take(n));
        assert(joined.skip(n) =~= first.skip(n).push('.') + second);
        lemma_bare_paths_compose(root, first.skip(n), second);
    } else if first == "payload"@ {
        assert(joined.take(n) =~= "payload."@);
        assert(joined.skip(n) =~= second);
    } else {
        if begins_with(joined, "payload."@) {
            let start = joined.take(n);
            assert(start == "payload."@);
            if first.len() < 7 {
                assert(start[first.len() as int] == '.');
                assert(false);
            } else if first.len() == 7 {
                assert forall|i: int| 0 <= i < 7 implies first[i] == "payload"@[i] by {
                    assert(first[i] == start[i]);
                }
                assert(first =~= "payload"@);
            } else {
                assert(first.take(n) =~= start);
            }
            assert(false);
        }
        lemma_bare_paths_compose(root, first, second);
    }
}

/// A number is the sum of its digits, each ten times as much as the one behind it.
pub proof fn law_digits_add_up(digits: Seq<char>, digit: char)
    requires
        is_digit(digit),
    ensures
        decimal(Seq::empty()) == 0,
        decimal(digits.push(digit)) == 10 * decimal(digits) + (digit as int - '0' as int),
        0x30 <= digit as int <= 0x39,
{
    assert(digits.push(digit).drop_last() =~= digits);
}

/// A position is a number in decimal digits, at least one, with or without a plus sign in front; no
/// other text is a position.
pub proof fn law_position_is_a_decimal_number(text: Seq<char>, position: nat)
    ensures
        position_of(text) == Some(position) <==> exists|digits: Seq<char>|
            {
                &&& text == digits || text == seq!['+'] + digits
                &&& digits.len() > 0
                &&& forall|i: int| 0 <= i < digits.len() ==> is_digit(#[trigger] digits[i])
                &&& #[trigger] decimal(digits) == position
            },
{
    if position_of(text) == Some(position) {
        let digits = position_digits(text);
        if text.len() > 0 && text[0] == '+' {
            assert(text =~= seq!['+'] + digits);
        }
        assert(decimal(digits) == position);
    }
    if exists|digits: Seq<char>|
        {
            &&& text == digits || text == seq!['+'] + digits
            &&& digits.len() > 0
            &&& forall|i: int| 0 <= i < digits.len() ==> is_digit(#[trigger] digits[i])
            &&& #[trigger] decimal(digits) == position
        } {
        let digits = choose|digits: Seq<char>|
            {
                &&& text == digits || text == seq!['+'] + digits
                &&& digits.len() > 0
                &&& forall|i: int| 0 <= i < digits.len() ==> is_digit(#[trigger] digits[i])
                &&& #[trigger] decimal(digits) == position
            };
        if text == digits {
            assert(is_digit(digits[0]));
            assert(position_digits(text) == digits);
        } else {
            assert(position_digits(text) =~= digits);
        }
    }
}

/// A token without a bracket is the name of a member; the empty token stays where it is.
pub proof fn law_name_selects_the_member(value: JsonView, token: Seq<char>)
    requires
        forall|i: int| 0 <= i < token.len() ==> #[trigger] token[i] != '[',
    ensures
        token.len() == 0 ==> resolve_token_view(value, token) == Some(value),
        token.len() > 0 ==> resolve_token_view(value, token) == member(value, token),
{
    lemma_is_first_of(token, '[', token.len() as int);
    assert(token.take(token.len() as int) =~= token);
    assert(token.skip(token.len() as int) =~= Seq::empty());
}

/// A text with an opening bracket is no position.
proof fn lemma_bracket_is_no_position(text: Seq<char>, at: int)
    requires
        0 <= at < text.len(),
        text[at] == '[',
    ensures
        position_of(text) is None,
{
    let digits = position_digits(text);
    if text[0] == '+' {
        assert(digits[at - 1] == '[');
    } else {
        assert(digits[at] == '[');
    }
}

/// A position in brackets behind other positions leads on from where those lead.
proof fn lemma_steps_lead_on(value: JsonView, steps: Seq<char>, position: Seq<char>)
    requires
        forall|i: int| 0 <= i < position.len() ==> #[trigger] position[i] != ']',
    ensures
        resolve_steps(value, steps.push('[') + position.push(']')) == match resolve_steps(
            value,
            steps,
        ) {
            Some(found) => match position_of(position) {
                Some(index) => element(found, index),
                None => None,
            },
            None => None,
        },
    decreases steps.len(),
{
    let long = steps.push('[') + position.push(']');
    let tail = long.skip(1);
    if steps.len() == 0 {
        assert(tail =~= position.push(']'));
        lemma_is_first_of(tail, ']', position.len() as int);
        assert(tail.take(position.len() as int) =~= position);
        assert(tail.skip(position.len() as int + 1) =~= Seq::empty());
        if let Some(index) = position_of(position) {
            if let Some(next) = element(value, index) {
                assert(resolve_steps(next, Seq::empty()) == Some(next));
            }
        }
    } else if steps[0] == '[' {
        let inner = steps.skip(1);
        assert(long[0] == '[');
        assert(tail =~= inner.push('[') + position.push(']'));
        lemma_first_of(inner, ']');
        let close = first_of(inner, ']');
        if close < inner.len() {
            assert forall|i: int| 0 <= i < close implies tail[i] != ']' by {
                assert(tail[i] == inner[i]);
            }
            assert(tail[close] == inner[close]);
            lemma_is_first_of(tail, ']', close);
            assert(tail.take(close) =~= inner.take(close));
            let rest = inner.skip(close + 1);
            assert(tail.skip(close + 1) =~= rest.push('[') + position.push(']'));
            if let Some(index) = position_of(inner.take(close)) {
                if let Some(next) = element(value, index) {
                    lemma_steps_lead_on(next, rest, position);
                }
            }
        } else {
            let end = (inner.len() + 1 + position.len()) as int;
            assert forall|i: int| 0 <= i < end implies tail[i] != ']' by {
                if i < inner.len() {
                    assert(tail[i] == inner[i]);
                } else if i > inner.len() {
                    assert(tail[i] == position[i - inner.len() - 1]);
                }
            }
            assert(tail[end] == ']');
            lemma_is_first_of(tail, ']', end);
            assert(tail.take(end)[inner.len() as int] == '[');
            lemma_bracket_is_no_position(tail.take(end), inner.len() as int);
        }
    } else {
        assert(long[0] == steps[0]);
    }
}

/// A position in brackets leads from where the token before it leads to the element there. A text
/// in the brackets that is no position leads nowhere.
pub proof fn law_brackets_select_the_element(
    value: JsonView,
    token: Seq<char>,
    position: Seq<char>,
)
    requires
        forall|i: int| 0 <= i < position.len() ==> #[trigger] position[i] != ']',
    ensures
        resolve_token_view(value, token.push('[') + position.push(']')) == match resolve_token_view(
            value,
            token,
        ) {
            Some(found) => match position_of(position) {
                Some(index) => element(found, index),
                None => None,
            },
            None => None,
        },
{
    let long = token.push('[') + position.push(']');
    lemma_first_of(token, '[');
    let at = first_of(token, '[');
    assert forall|i: int| 0 <= i < at implies long[i] != '[' by {
        assert(long[i] == token[i]);
    }
    if at < token.len() {
        assert(long[at] == token[at]);
    } else {
        assert(long[at] == '[');
    }
    lemma_is_first_of(long, '[', at);
    let name = token.take(at);
    let steps = token.skip(at);
    assert(long.take(at) =~= name);
    assert(long.skip(at) =~= steps.push('[') + position.push(']'));
    if name.len() == 0 {
        lemma_steps_lead_on(value, steps, position);
    } else if let Some(next) = member(value, name) {
        lemma_steps_lead_on(next, steps, position);
    }
}

/// Positions that lead somewhere end with a bracket.
proof fn lemma_steps_end_with_a_bracket(value: JsonView, steps: Seq<char>)
    requires
        resolve_steps(value, steps) is Some,
        steps.len() > 0,
    ensures
        steps.last() == ']',
    decreases steps.len(),
{
    let inner = steps.skip(1);
    lemma_first_of(inner, ']');
    let close = first_of(inner, ']');
    let rest = inner.skip(close + 1);
    let next = element(value, position_of(inner.take(close))->0)->0;
    if rest.len() > 0 {
        lemma_steps_end_with_a_bracket(next, rest);
        assert(steps.last() == rest.last());
    } else {
        assert(steps.last() == inner[close]);
    }
}

/// Positions behind which something other than a bracket follows lead nowhere.
proof fn lemma_steps_hold_nothing_else(value: JsonView, steps: Seq<char>, at: int)
    requires
        steps.len() > 0,
        steps[0] == '[',
        0 < at < steps.len() - 1,
        steps[at] == ']',
        steps[at + 1] != '[',
    ensures
        resolve_steps(value, steps) is None,
    decreases steps.len(),
{
    let inner = steps.skip(1);
    lemma_first_of(inner, ']');
    let close = first_of(inner, ']');
    assert(inner[at - 1] == ']');
    let rest = inner.skip(close + 1);
    if let Some(index) = position_of(inner.take(close)) {
        if let Some(next) = element(value, index) {
            if close == at - 1 {
                assert(rest[0] == steps[at + 1]);
                assert(resolve_steps(next, rest) is None);
            } else {
                assert(rest.len() > 0);
                if rest[0] == '[' {
                    assert(rest[at - close - 2] == steps[at]);
                    assert(rest[at - close - 1] == steps[at + 1]);
                    lemma_steps_hold_nothing_else(next, rest, at - close - 2);
                } else {
                    assert(resolve_steps(next, rest) is None);
                }
            }
        }
    }
}

/// A token with brackets leads nowhere unless it ends with one, and unless behind every closing
/// bracket that follows an opening one the next opens at once.
pub proof fn law_malformed_tokens_lead_nowhere(
    value: JsonView,
    token: Seq<char>,
    open: int,
    close: int,
)
    requires
        0 <= open < token.len(),
        token[open] == '[',
    ensures
        token.last() != ']' ==> resolve_token_view(value, token) is None,
        open < close < token.len() - 1 && token[close] == ']' && token[close + 1] != '['
            ==> resolve_token_view(value, token) is None,
{
    lemma_first_of(token, '[');
    let at = first_of(token, '[');
    assert(at <= open);
    let name = token.take(at);
    let steps = token.skip(at);
    assert(steps.last() == token.last());
    let from = if name.len() == 0 {
        Some(value)
    } else {
        member(value, name)
    };
    if let Some(next) = from {
        if resolve_steps(next, steps) is Some {
            lemma_steps_end_with_a_bracket(next, steps);
        }
        if open < close < token.len() - 1 && token[close] == ']' && token[close + 1] != '[' {
            assert(steps[close - at] == ']' && steps[close - at + 1] != '[');
            lemma_steps_hold_nothing_else(next, steps, close - at);
        }
    }
}

/// A path of one token leads where the token leads.
pub proof fn law_one_token_is_a_path(root: JsonView, token: Seq<char>)
    requires
        token.len() > 0,
        !is_white_space(token[0]),
        !is_white_space(token.last()),
        token != "payload"@,
        forall|i: int| 0 <= i < token.len() ==> #[trigger] token[i] != '.',
    ensures
        select_view(root, token) == resolve_token_view(root, token),
{
    reveal_strlit("payload.");
    lemma_trimmed_is_whole(token);
    assert(!begins_with(token, "payload."@)) by {
        if begins_with(token, "payload."@) {
            assert(token.take("payload."@.len() as int)[7] == '.');
            assert(token[7] == '.');
        }
    }
    lemma_is_first_of(token, '.', token.len() as int);
    assert(split_on(token, '.') =~= seq![token]);
    assert(split_on(token, '.').skip(1) =~= Seq::empty());
    if let Some(next) = resolve_token_view(root, token) {
        assert(resolve_tokens(next, Seq::empty()) == Some(next));
    }
}

/// The decimal digits, by their numbers.
pub proof fn law_digits_by_number(c: char)
    ensures
        is_digit(c) <==> 0x30 <= c as int <= 0x39,
{
}

/// Exactly one leading `payload.` is left out, and `payload` alone; any other path stays as it is.
pub proof fn law_one_leading_payload_is_left_out(path: Seq<char>)
    ensures
        without_payload("payload."@ + path) == path,
        without_payload("payload"@) == Seq::<char>::empty(),
        !begins_with(path, "payload."@) && path != "payload"@ ==> without_payload(path) == path,
{
    reveal_strlit("payload.");
    reveal_strlit("payload");
    let long = "payload."@ + path;
    assert(long.take("payload."@.len() as int) =~= "payload."@);
    assert(long.skip("payload."@.len() as int) =~= path);
}

/// Tokens lead on one after another: the last leads on from where those before it lead.
pub proof fn law_tokens_lead_on(value: JsonView, tokens: Seq<Seq<char>>, token: Seq<char>)
    ensures
        resolve_tokens(value, Seq::empty()) == Some(value),
        resolve_tokens(value, tokens.push(token)) == match resolve_tokens(value, tokens) {
            Some(found) => resolve_token_view(found, token),
            None => None,
        },
{
    lemma_resolve_joined(value, tokens, seq![token]);
    assert(tokens + seq![token] =~= tokens.push(token));
    if let Some(found) = resolve_tokens(value, tokens) {
        assert(seq![token].skip(1) =~= Seq::empty());
        if let Some(next) = resolve_token_view(found, token) {
            assert(resolve_tokens(next, Seq::empty()) == Some(next));
        }
    }
}

/// A path leads where its tokens lead, the texts between its dots, each as it stands there. White
/// space at the ends of the path, and a leading `payload`, are no part of them.
pub proof fn law_path_leads_where_its_tokens_lead(root: JsonView, path: Seq<char>)
    ensures
        select_view(root, path) == resolve_tokens(
            root,
            split_on(without_payload(trimmed(path)), '.'),
        ),
{
    let rest = without_payload(trimmed(path));
    if rest.len() == 0 {
        assert(rest =~= Seq::empty());
        lemma_empty_token(root);
    }
}

/// What a call selects from a tree by a name without dots and brackets is the member of that name.
pub proof fn law_selected_name_is_the_member(root: &Json, path: &str, found: Option<&Json>)
    requires
        call_ensures(select, (root, path), found),
        path@.len() > 0,
        !is_white_space(path@[0]),
        !is_white_space(path@.last()),
        path@ != "payload"@,
        forall|i: int| 0 <= i < path@.len() ==> #[trigger] path@[i] != '.' && path@[i] != '[',
    ensures
        found is Some <==> member(root@, path@) is Some,
        found is Some ==> found->0@ == member(root@, path@)->0,
{
    assert forall|i: int| 0 <= i < path@.len() implies #[trigger] path@[i] != '[' by {
        assert(path@[i] != '.' && path@[i] != '[');
    }
    law_one_token_is_a_path(root@, path@);
    law_name_selects_the_member(root@, path@);
}

} // verus!
