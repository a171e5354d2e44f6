//! Text as sequences of characters: searching, splitting, case folding and
//! decimal numbers.

use vstd::prelude::*;

verus! {

/// `String::push`: appends one character.
pub assume_specification[ String::push ](text: &mut String, c: char)
    ensures
        final(text)@ == old(text)@.push(c),
;

// ---------------------------------------------------------------------------
// What the functions below compute
// ---------------------------------------------------------------------------

/// `part` stands in `text`, starting at index `at`.
pub open spec fn occurs_at(text: Seq<char>, part: Seq<char>, at: int) -> bool {
    &&& 0 <= at
    &&& at + part.len() <= text.len()
    &&& forall|k: int| 0 <= k < part.len() ==> text[at + k] == #[trigger] part[k]
}

/// `part` stands somewhere in `text`.
pub open spec fn has_part(text: Seq<char>, part: Seq<char>) -> bool {
    exists|at: int| occurs_at(text, part, at)
}

/// The first index, from `from` on, at which `part` stands in `text`.
pub open spec fn part_index_from(text: Seq<char>, part: Seq<char>, from: int) -> Option<int>
    decreases text.len() - from,
{
    if from + part.len() > text.len() {
        None
    } else if occurs_at(text, part, from) {
        Some(from)
    } else {
        part_index_from(text, part, from + 1)
    }
}

/// The lower case of an ASCII letter; any other character as it is.
pub open spec fn ascii_lower(c: char) -> char {
    if 'A' <= c <= 'Z' {
        (c as u8 + 32) as char
    } else {
        c
    }
}

/// The text with its ASCII letters in lower case.
pub open spec fn ascii_folded(text: Seq<char>) -> Seq<char> {
    text.map_values(|c: char| ascii_lower(c))
}

/// `part` stands in `text`, ASCII case aside.
pub open spec fn has_part_ignoring_case(text: Seq<char>, part: Seq<char>) -> bool {
    has_part(ascii_folded(text), ascii_folded(part))
}

/// One of the names, folded, stands in a folded text.
pub open spec fn folded_names_any(folded: Seq<char>, names: Seq<&'static str>) -> bool {
    exists|i: int|
        0 <= i < names.len() && has_part(folded, ascii_folded(#[trigger] names[i]@))
}

/// One of the names stands in `text`, ASCII case aside.
pub open spec fn names_any_ignoring_case(text: Seq<char>, names: Seq<&'static str>) -> bool {
    folded_names_any(ascii_folded(text), names)
}

/// One of the names stands in `text`.
pub open spec fn names_any(text: Seq<char>, names: Seq<&'static str>) -> bool {
    exists|i: int| 0 <= i < names.len() && has_part(text, #[trigger] names[i]@)
}

/// The last index at which `c` stands in `text`.
pub open spec fn last_index_of(text: Seq<char>, c: char) -> Option<int>
    decreases text.len(),
{
    if text.len() == 0 {
        None
    } else if text.last() == c {
        Some(text.len() - 1)
    } else {
        last_index_of(text.drop_last(), c)
    }
}

/// `text` begins with `part`.
pub open spec fn begins_with(text: Seq<char>, part: Seq<char>) -> bool {
    occurs_at(text, part, 0)
}

/// `text` ends with `part`.
pub open spec fn ends_with(text: Seq<char>, part: Seq<char>) -> bool {
    occurs_at(text, part, text.len() - part.len())
}

/// `text` without `part` at its start, as often as it stands there.
pub open spec fn without_leading(text: Seq<char>, part: Seq<char>) -> Seq<char>
    decreases text.len(),
{
    if part.len() > 0 && begins_with(text, part) {
        without_leading(text.skip(part.len() as int), part)
    } else {
        text
    }
}

/// `text` without `part` at its end, as often as it stands there.
pub open spec fn without_trailing(text: Seq<char>, part: Seq<char>) -> Seq<char>
    decreases text.len(),
{
    if part.len() > 0 && ends_with(text, part) {
        without_trailing(text.take(text.len() - part.len()), part)
    } else {
        text
    }
}

/// The pieces of `text` between the characters that are in `separators`,
/// empty pieces included: there is one piece more than there are separators.
pub open spec fn pieces_of(text: Seq<char>, separators: Seq<char>) -> Seq<Seq<char>>
    decreases text.len(),
{
    if text.len() == 0 {
        seq![Seq::<char>::empty()]
    } else {
        let before = pieces_of(text.drop_last(), separators);
        if separators.contains(text.last()) {
            before.push(Seq::<char>::empty())
        } else {
            before.drop_last().push(before.last().push(text.last()))
        }
    }
}

/// The digit character of a value below ten.
pub open spec fn digit(value: nat) -> char {
    (value + 48) as char
}

/// The decimal digits of a number.
pub open spec fn decimal(n: nat) -> Seq<char>
    decreases n,
{
    if n < 10 {
        seq![digit(n)]
    } else {
        decimal(n / 10).push(digit(n % 10))
    }
}

/// Every character is a decimal digit.
pub open spec fn all_digits(text: Seq<char>) -> bool {
    forall|i: int| 0 <= i < text.len() ==> '0' <= #[trigger] text[i] <= '9'
}

/// The value of a sequence of decimal digits.
pub open spec fn digits_value(text: Seq<char>) -> nat
    decreases text.len(),
{
    if text.len() == 0 {
        0
    } else {
        digits_value(text.drop_last()) * 10 + (text.last() as nat - 48) as nat
    }
}

/// The number that a text without a sign writes, if it is at most `limit`.
pub open spec fn digits_number(text: Seq<char>, limit: nat) -> Option<nat> {
    if text.len() > 0 && all_digits(text) && digits_value(text) <= limit {
        Some(digits_value(text))
    } else {
        None
    }
}

/// The number of type `u32` that a text writes, with or without a plus sign.
pub open spec fn u32_number(text: Seq<char>) -> Option<nat> {
    if text.len() > 0 && text[0] == '+' {
        digits_number(text.skip(1), u32::MAX as nat)
    } else {
        digits_number(text, u32::MAX as nat)
    }
}

/// The number of type `i32` that a text writes, with or without a sign.
pub open spec fn i32_number(text: Seq<char>) -> Option<int> {
    if text.len() > 0 && text[0] == '-' {
        match digits_number(text.skip(1), 0x8000_0000) {
            Some(n) => Some(-(n as int)),
            None => None,
        }
    } else if text.len() > 0 && text[0] == '+' {
        match digits_number(text.skip(1), 0x7fff_ffff) {
            Some(n) => Some(n as int),
            None => None,
        }
    } else {
        match digits_number(text, 0x7fff_ffff) {
            Some(n) => Some(n as int),
            None => None,
        }
    }
}

/// The characters that separate words: Unicode's White_Space property.
pub open spec fn is_white_space(c: char) -> bool {
    ||| 0x09 <= c as int <= 0x0d
    ||| c as int == 0x20
    ||| c as int == 0x85
    ||| c as int == 0xa0
    ||| c as int == 0x1680
    ||| 0x2000 <= c as int <= 0x200a
    ||| c as int == 0x2028
    ||| c as int == 0x2029
    ||| c as int == 0x202f
    ||| c as int == 0x205f
    ||| c as int == 0x3000
}

/// `text` without the white space at its start.
pub open spec fn trimmed_start(text: Seq<char>) -> Seq<char>
    decreases text.len(),
{
    if text.len() > 0 && is_white_space(text[0]) {
        trimmed_start(text.skip(1))
    } else {
        text
    }
}

/// `text` without the white space at its end.
pub open spec fn trimmed_end(text: Seq<char>) -> Seq<char>
    decreases text.len(),
{
    if text.len() > 0 && is_white_space(text.last()) {
        trimmed_end(text.drop_last())
    } else {
        text
    }
}

/// `text` without the white space at both ends.
pub open spec fn trimmed(text: Seq<char>) -> Seq<char> {
    trimmed_end(trimmed_start(text))
}

/// `a` stands before `b` in the order of code points, as strings are ordered.
pub open spec fn text_before(a: Seq<char>, b: Seq<char>) -> bool
    decreases a.len(),
{
    if b.len() == 0 {
        false
    } else if a.len() == 0 {
        true
    } else if a[0] == b[0] {
        text_before(a.skip(1), b.skip(1))
    } else {
        a[0] < b[0]
    }
}

/// The text of an optional string.
pub open spec fn opt_text(text: Option<String>) -> Option<Seq<char>> {
    match text {
        Some(t) => Some(t@),
        None => None,
    }
}

// ---------------------------------------------------------------------------
// Characters and strings
// ---------------------------------------------------------------------------

/// The characters of a text.
pub fn chars_of(text: &str) -> (chars: Vec<char>)
    ensures
        chars@ == text@,
{
    let mut chars: Vec<char> = Vec::new();
    for c in it: text.chars()
        invariant
            chars@ == text@.take(it.index()),
            it.seq() == text@,
    {
        chars.push(c);
    }
    chars
}

/// The string made of the characters from `from` up to `to`.
pub fn string_of(chars: &Vec<char>, from: usize, to: usize) -> (text: String)
    requires
        from <= to <= chars@.len(),
    ensures
        text@ == chars@.subrange(from as int, to as int),
{
    let mut text = String::new();
    let mut i: usize = from;
    while i < to
        invariant
            from <= i <= to <= chars@.len(),
            text@ == chars@.subrange(from as int, i as int),
        decreases to - i,
    {
        text.push(chars[i]);
        i += 1;
        assert(chars@.subrange(from as int, i as int) =~= chars@.subrange(
            from as int,
            i - 1,
        ).push(chars@[i - 1]));
    }
    text
}

/// The lower case of an ASCII letter; any other character as it is.
pub fn lower_char(c: char) -> (lower: char)
    ensures
        lower == ascii_lower(c),
{
    if 'A' <= c && c <= 'Z' {
        (c as u8 + 32) as char
    } else {
        c
    }
}

/// The characters of a text with its ASCII letters in lower case.
pub fn folded_chars(text: &str) -> (chars: Vec<char>)
    ensures
        chars@ == ascii_folded(text@),
{
    let mut chars: Vec<char> = Vec::new();
    for c in it: text.chars()
        invariant
            chars@ == ascii_folded(text@).take(it.index()),
            it.seq() == text@,
    {
        chars.push(lower_char(c));
    }
    chars
}

/// Whether two texts are the same.
pub fn same_text(a: &str, b: &str) -> (same: bool)
    ensures
        same == (a@ == b@),
{
    let x = a.as_bytes();
    let y = b.as_bytes();
    proof {
        vstd::utf8::encode_utf8_decode_utf8(a@);
        vstd::utf8::encode_utf8_decode_utf8(b@);
    }
    if x.len() != y.len() {
        return false;
    }
    let mut i: usize = 0;
    while i < x.len()
        invariant
            i <= x@.len(),
            x@.len() == y@.len(),
            x@ == vstd::utf8::encode_utf8(a@),
            y@ == vstd::utf8::encode_utf8(b@),
            forall|j: int| 0 <= j < i ==> x@[j] == y@[j],
        decreases x@.len() - i,
    {
        if x[i] != y[i] {
            return false;
        }
        i += 1;
    }
    assert(x@ =~= y@);
    true
}

/// A copy of an optional string.
pub fn copy_opt(text: &Option<String>) -> (copy: Option<String>)
    ensures
        copy == *text,
{
    match text {
        Some(t) => Some(t.clone()),
        None => None,
    }
}

// ---------------------------------------------------------------------------
// Searching
// ---------------------------------------------------------------------------

/// Whether `part` stands in `text` at `at`.
pub fn stands_at(text: &Vec<char>, part: &Vec<char>, at: usize) -> (stands: bool)
    ensures
        stands == occurs_at(text@, part@, at as int),
{
    if part.len() > text.len() || at > text.len() - part.len() {
        return false;
    }
    let mut k: usize = 0;
    while k < part.len()
        invariant
            k <= part@.len(),
            at + part.len() <= text.len(),
            forall|j: int| 0 <= j < k ==> text@[at + j] == #[trigger] part@[j],
        decreases part@.len() - k,
    {
        if text[at + k] != part[k] {
            assert(text@[at + k] != part@[k as int]);
            return false;
        }
        k += 1;
    }
    true
}

/// The first index, from `from` on, at which `part` stands in `text`.
pub fn find_part(text: &Vec<char>, part: &Vec<char>, from: usize) -> (index: Option<usize>)
    requires
        from <= text@.len(),
    ensures
        match index {
            Some(i) => part_index_from(text@, part@, from as int) == Some(i as int),
            None => part_index_from(text@, part@, from as int) is None,
        },
        index is Some <==> exists|at: int| from <= at && occurs_at(text@, part@, at),
        index matches Some(i) ==> from <= i && occurs_at(text@, part@, i as int),
{
    let mut i: usize = from;
    while part.len() <= text.len() && i <= text.len() - part.len()
        invariant
            from <= i <= text@.len(),
            part_index_from(text@, part@, from as int) == part_index_from(
                text@,
                part@,
                i as int,
            ),
            forall|at: int| from <= at < i ==> !occurs_at(text@, part@, at),
        decreases text@.len() - i,
    {
        if stands_at(text, part, i) {
            return Some(i);
        }
        if i == text.len() {
            assert(part_index_from(text@, part@, i + 1) is None);
            assert forall|at: int| from <= at implies !occurs_at(text@, part@, at) by {}
            return None;
        }
        i += 1;
    }
    assert forall|at: int| from <= at implies !occurs_at(text@, part@, at) by {}
    None
}

/// Whether `part` stands in `text`, both as characters.
pub fn chars_have_part(text: &Vec<char>, part: &Vec<char>) -> (found: bool)
    ensures
        found == has_part(text@, part@),
{
    match find_part(text, part, 0) {
        Some(i) => {
            assert(occurs_at(text@, part@, i as int));
            true
        },
        None => {
            assert forall|at: int| !occurs_at(text@, part@, at) by {}
            false
        },
    }
}

/// Whether `part` stands in `text`.
pub fn contains(text: &str, part: &str) -> (found: bool)
    ensures
        found == has_part(text@, part@),
{
    chars_have_part(&chars_of(text), &chars_of(part))
}

/// Whether one of the names stands in `text`.
pub fn contains_any(text: &str, names: &[&'static str]) -> (found: bool)
    ensures
        found == names_any(text@, names@),
{
    let chars = chars_of(text);
    let mut i: usize = 0;
    while i < names.len()
        invariant
            i <= names@.len(),
            chars@ == text@,
            forall|j: int| 0 <= j < i ==> !has_part(text@, #[trigger] names@[j]@),
        decreases names@.len() - i,
    {
        if chars_have_part(&chars, &chars_of(names[i])) {
            assert(has_part(text@, names@[i as int]@));
            return true;
        }
        i += 1;
    }
    false
}

/// Whether one of the names stands in a text that is already folded.
pub fn folded_contains_any(folded: &Vec<char>, names: &[&'static str]) -> (found: bool)
    ensures
        found == folded_names_any(folded@, names@),
{
    let mut i: usize = 0;
    while i < names.len()
        invariant
            i <= names@.len(),
            forall|j: int|
                0 <= j < i ==> !has_part(folded@, ascii_folded(#[trigger] names@[j]@)),
        decreases names@.len() - i,
    {
        if chars_have_part(folded, &folded_chars(names[i])) {
            assert(has_part(folded@, ascii_folded(names@[i as int]@)));
            return true;
        }
        i += 1;
    }
    false
}

/// The last index at which `c` stands in `chars`.
pub fn rfind_char(chars: &Vec<char>, c: char) -> (index: Option<usize>)
    ensures
        match index {
            Some(i) => last_index_of(chars@, c) == Some(i as int) && i < chars@.len(),
            None => last_index_of(chars@, c) is None,
        },
{
    let mut n: usize = chars.len();
    assert(chars@.take(n as int) =~= chars@);
    while n > 0
        invariant
            n <= chars@.len(),
            last_index_of(chars@, c) == last_index_of(chars@.take(n as int), c),
        decreases n,
    {
        if chars[n - 1] == c {
            return Some(n - 1);
        }
        assert(chars@.take(n as int).drop_last() =~= chars@.take(n - 1));
        n -= 1;
    }
    None
}

// ---------------------------------------------------------------------------
// Prefixes, suffixes and pieces
// ---------------------------------------------------------------------------

/// Whether `text` ends with `part`, both as characters.
pub fn chars_end_with(text: &Vec<char>, part: &Vec<char>) -> (ends: bool)
    ensures
        ends == ends_with(text@, part@),
{
    if part.len() > text.len() {
        false
    } else {
        stands_at(text, part, text.len() - part.len())
    }
}

/// The characters from `from` up to `to`.
pub fn chars_between(chars: &Vec<char>, from: usize, to: usize) -> (part: Vec<char>)
    requires
        from <= to <= chars@.len(),
    ensures
        part@ == chars@.subrange(from as int, to as int),
{
    let mut part: Vec<char> = Vec::new();
    let mut i: usize = from;
    while i < to
        invariant
            from <= i <= to <= chars@.len(),
            part@ == chars@.subrange(from as int, i as int),
        decreases to - i,
    {
        part.push(chars[i]);
        i += 1;
        assert(chars@.subrange(from as int, i as int) =~= chars@.subrange(
            from as int,
            i - 1,
        ).push(chars@[i - 1]));
    }
    part
}

/// `text` without `part` at its start, as often as it stands there.
pub fn trim_leading(text: &Vec<char>, part: &Vec<char>) -> (rest: Vec<char>)
    ensures
        rest@ == without_leading(text@, part@),
{
    let mut from: usize = 0;
    assert(text@.skip(0) =~= text@);
    while part.len() > 0 && stands_at(text, part, from)
        invariant
            from <= text@.len(),
            without_leading(text@, part@) == without_leading(text@.skip(from as int), part@),
        decreases text@.len() - from,
    {
        proof {
            let rest = text@.skip(from as int);
            assert forall|k: int| 0 <= k < part@.len() implies rest[0 + k] == #[trigger] part@[k] by {
                assert(text@[from + k] == part@[k]);
            }
            assert(rest.skip(part@.len() as int) =~= text@.skip(from + part@.len()));
        }
        assert(from + part.len() <= text.len());
        from += part.len();
    }
    proof {
        let rest = text@.skip(from as int);
        if part@.len() > 0 && begins_with(rest, part@) {
            assert forall|k: int| 0 <= k < part@.len() implies text@[from + k] == #[trigger] part@[k] by {
                assert(rest[0 + k] == part@[k]);
            }
        }
        assert(rest =~= text@.subrange(from as int, text@.len() as int));
    }
    chars_between(text, from, text.len())
}

/// `text` without `part` at its end, as often as it stands there.
pub fn trim_trailing(text: &Vec<char>, part: &Vec<char>) -> (rest: Vec<char>)
    ensures
        rest@ == without_trailing(text@, part@),
{
    let mut to: usize = text.len();
    assert(text@.take(to as int) =~= text@);
    while part.len() > 0 && part.len() <= to && stands_at(text, part, to - part.len())
        invariant
            to <= text@.len(),
            without_trailing(text@, part@) == without_trailing(text@.take(to as int), part@),
        decreases to,
    {
        proof {
            let rest = text@.take(to as int);
            let at = to - part@.len();
            assert forall|k: int| 0 <= k < part@.len() implies rest[at + k] == #[trigger] part@[k] by {
                assert(text@[at + k] == part@[k]);
            }
            assert(rest.take(at) =~= text@.take(at));
        }
        to -= part.len();
    }
    proof {
        let rest = text@.take(to as int);
        let at = to - part@.len();
        if part@.len() > 0 && ends_with(rest, part@) {
            assert forall|k: int| 0 <= k < part@.len() implies text@[at + k] == #[trigger] part@[k] by {
                assert(rest[at + k] == part@[k]);
            }
        }
        assert(rest =~= text@.subrange(0, to as int));
    }
    chars_between(text, 0, to)
}

/// The characters of each piece.
pub open spec fn piece_views(pieces: Seq<Vec<char>>) -> Seq<Seq<char>> {
    pieces.map_values(|piece: Vec<char>| piece@)
}

/// Whether `c` is one of `chars`.
pub fn is_one_of(c: char, chars: &Vec<char>) -> (found: bool)
    ensures
        found == chars@.contains(c),
{
    let mut i: usize = 0;
    while i < chars.len()
        invariant
            i <= chars@.len(),
            forall|j: int| 0 <= j < i ==> chars@[j] != c,
        decreases chars@.len() - i,
    {
        if chars[i] == c {
            return true;
        }
        i += 1;
    }
    false
}

/// The pieces of `text` between the separators.
pub fn split_chars(text: &Vec<char>, separators: &Vec<char>) -> (pieces: Vec<Vec<char>>)
    ensures
        piece_views(pieces@) == pieces_of(text@, separators@),
        pieces@.len() > 0,
{
    let mut done: Vec<Vec<char>> = Vec::new();
    let mut current: Vec<char> = Vec::new();
    let mut i: usize = 0;
    while i < text.len()
        invariant
            i <= text@.len(),
            pieces_of(text@.take(i as int), separators@) =~= piece_views(done@).push(current@),
        decreases text@.len() - i,
    {
        let c = text[i];
        assert(text@.take(i + 1).drop_last() =~= text@.take(i as int));
        let ghost before = piece_views(done@).push(current@);
        assert(before.drop_last() =~= piece_views(done@));
        if is_one_of(c, separators) {
            done.push(current);
            current = Vec::new();
            assert(piece_views(done@) =~= before);
            assert(current@ =~= Seq::<char>::empty());
        } else {
            current.push(c);
        }
        i += 1;
    }
    assert(text@.take(text@.len() as int) =~= text@);
    let ghost before = piece_views(done@).push(current@);
    done.push(current);
    assert(piece_views(done@) =~= before);
    done
}

// ---------------------------------------------------------------------------
// White space
// ---------------------------------------------------------------------------

/// Whether `c` separates words.
pub fn white_space(c: char) -> (white: bool)
    ensures
        white == is_white_space(c),
{
    let code: u32 = c as u32;
    (0x09 <= code && code <= 0x0d) || code == 0x20 || code == 0x85 || code == 0xa0 || code == 0x1680
        || (0x2000 <= code && code <= 0x200a) || code == 0x2028 || code == 0x2029 || code == 0x202f
        || code == 0x205f || code == 0x3000
}

/// `text` without the white space at both ends.
pub fn trim_chars(text: &Vec<char>) -> (rest: Vec<char>)
    ensures
        rest@ == trimmed(text@),
{
    let mut from: usize = 0;
    assert(text@.skip(0) =~= text@);
    while from < text.len() && white_space(text[from])
        invariant
            from <= text@.len(),
            trimmed_start(text@) == trimmed_start(text@.skip(from as int)),
        decreases text@.len() - from,
    {
        assert(text@.skip(from as int).skip(1) =~= text@.skip(from + 1));
        from += 1;
    }
    let mut to: usize = text.len();
    let ghost start = text@.skip(from as int);
    assert(start == trimmed_start(text@));
    assert(text@.subrange(from as int, to as int) =~= start);
    while from < to && white_space(text[to - 1])
        invariant
            from <= to <= text@.len(),
            trimmed_end(start) == trimmed_end(text@.subrange(from as int, to as int)),
        decreases to,
    {
        assert(text@.subrange(from as int, to as int).drop_last() =~= text@.subrange(
            from as int,
            to - 1,
        ));
        to -= 1;
    }
    chars_between(text, from, to)
}

// ---------------------------------------------------------------------------
// Numbers
// ---------------------------------------------------------------------------

/// The decimal digits of a number.
pub fn decimal_text(n: u64) -> (text: String)
    ensures
        text@ == decimal(n as nat),
    decreases n,
{
    if n < 10 {
        let mut text = String::new();
        text.push((n as u8 + 48) as char);
        assert(text@ =~= seq![digit(n as nat)]);
        text
    } else {
        let mut text = decimal_text(n / 10);
        text.push(((n % 10) as u8 + 48) as char);
        text
    }
}

/// The value of `chars[from..]` as decimal digits, if it is at most `limit`.
fn parse_digits(chars: &Vec<char>, from: usize, limit: u32) -> (value: Option<u32>)
    requires
        from <= chars@.len(),
    ensures
        match value {
            Some(n) => digits_number(chars@.skip(from as int), limit as nat) == Some(n as nat),
            None => digits_number(chars@.skip(from as int), limit as nat) is None,
        },
{
    let ghost text = chars@.skip(from as int);
    if from == chars.len() {
        return None;
    }
    let mut value: u64 = 0;
    let mut i: usize = from;
    while i < chars.len()
        invariant
            from <= i <= chars@.len(),
            text == chars@.skip(from as int),
            value <= limit <= u32::MAX,
            value == digits_value(text.take(i - from)),
            all_digits(text.take(i - from)),
        decreases chars@.len() - i,
    {
        let c = chars[i];
        assert(text[i - from] == c);
        assert(text.take(i - from + 1).drop_last() =~= text.take(i - from));
        if c < '0' || '9' < c {
            assert(!all_digits(text));
            return None;
        }
        let next: u64 = value * 10 + (c as u64 - 48);
        assert(next == digits_value(text.take(i - from + 1)));
        if next > limit as u64 {
            proof {
                lemma_digits_value_grows(text, i - from + 1);
            }
            return None;
        }
        value = next;
        assert(all_digits(text.take(i - from + 1))) by {
            assert forall|k: int| 0 <= k < i - from + 1 implies '0' <= #[trigger] text.take(
                i - from + 1,
            )[k] <= '9' by {
                if k < i - from {
                    assert(text.take(i - from)[k] == text[k]);
                }
            }
        }
        i += 1;
    }
    assert(text.take(i - from) =~= text);
    Some(value as u32)
}

/// Further digits never make a number smaller.
proof fn lemma_digits_value_grows(text: Seq<char>, n: int)
    requires
        0 <= n <= text.len(),
    ensures
        digits_value(text.take(n)) <= digits_value(text),
    decreases text.len() - n,
{
    if n < text.len() {
        lemma_digits_value_grows(text, n + 1);
        assert(text.take(n + 1).drop_last() =~= text.take(n));
    } else {
        assert(text.take(n) =~= text);
    }
}

/// The number of type `u32` that the characters write.
pub fn parse_u32(chars: &Vec<char>) -> (value: Option<u32>)
    ensures
        match value {
            Some(n) => u32_number(chars@) == Some(n as nat),
            None => u32_number(chars@) is None,
        },
{
    assert(chars@.skip(0) =~= chars@);
    if chars.len() > 0 && chars[0] == '+' {
        parse_digits(chars, 1, u32::MAX)
    } else {
        parse_digits(chars, 0, u32::MAX)
    }
}

/// The number of type `i32` that the characters write.
pub fn parse_i32(chars: &Vec<char>) -> (value: Option<i32>)
    ensures
        match value {
            Some(n) => i32_number(chars@) == Some(n as int),
            None => i32_number(chars@) is None,
        },
{
    assert(chars@.skip(0) =~= chars@);
    if chars.len() > 0 && chars[0] == '-' {
        match parse_digits(chars, 1, 0x8000_0000) {
            Some(n) => Some((-(n as i64)) as i32),
            None => None,
        }
    } else if chars.len() > 0 && chars[0] == '+' {
        match parse_digits(chars, 1, 0x7fff_ffff) {
            Some(n) => Some(n as i32),
            None => None,
        }
    } else {
        match parse_digits(chars, 0, 0x7fff_ffff) {
            Some(n) => Some(n as i32),
            None => None,
        }
    }
}

/// A number is read back from its decimal digits, so different numbers have
/// different digits.
pub proof fn law_decimal_round_trip(n: nat)
    ensures
        decimal(n).len() > 0,
        all_digits(decimal(n)),
        digits_value(decimal(n)) == n,
    decreases n,
{
    if n >= 10 {
        law_decimal_round_trip(n / 10);
        assert(decimal(n).drop_last() =~= decimal(n / 10));
    } else {
        assert(decimal(n).drop_last() =~= Seq::empty());
        assert(digits_value(decimal(n).drop_last()) == 0);
    }
}

/// How many of the characters of a text are in `separators`.
pub open spec fn separators_in(text: Seq<char>, separators: Seq<char>) -> nat
    decreases text.len(),
{
    if text.len() == 0 {
        0
    } else {
        separators_in(text.drop_last(), separators) + if separators.contains(text.last()) {
            1nat
        } else {
            0
        }
    }
}

/// A text has one piece more than it has separators, and no piece has one.
pub proof fn law_pieces(text: Seq<char>, separators: Seq<char>)
    ensures
        pieces_of(text, separators).len() == separators_in(text, separators) + 1,
        forall|i: int, k: int|
            0 <= i < pieces_of(text, separators).len() && 0 <= k < pieces_of(
                text,
                separators,
            )[i].len() ==> !separators.contains(#[trigger] pieces_of(text, separators)[i][k]),
    decreases text.len(),
{
    if text.len() > 0 {
        law_pieces(text.drop_last(), separators);
        let before = pieces_of(text.drop_last(), separators);
        let pieces = pieces_of(text, separators);
        assert forall|i: int, k: int|
            0 <= i < pieces.len() && 0 <= k < pieces[i].len() implies !separators.contains(
            #[trigger] pieces[i][k],
        ) by {
            if i < before.len() && k < before[i].len() {
                assert(!separators.contains(before[i][k]));
            }
        }
    }
}

} // verus!
