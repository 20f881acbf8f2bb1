//! Text as a sequence of characters: the few string operations that the
//! connector needs, each with its meaning as a function on `Seq<char>`.

use vstd::prelude::*;

verus! {

/// `String::push` appends one character to the end of the string.
pub assume_specification[ String::push ](s: &mut String, c: char)
    ensures
        final(s)@ == old(s)@.push(c),
;

/// What `str::to_uppercase` makes of a text: its uppercase equivalent in the terms
/// of Unicode.
pub uninterp spec fn uppercase(s: Seq<char>) -> Seq<char>;

/// An ASCII letter in upper case; any other character as it is.
pub open spec fn ascii_upper(c: char) -> char {
    if 'a' <= c <= 'z' {
        (c as int - 32) as char
    } else {
        c
    }
}

/// `str::to_uppercase` gives the uppercase equivalent of a text, which depends on
/// nothing but the text. Of an ASCII text it is the text with the letters `a` to
/// `z` replaced by `A` to `Z`.
pub assume_specification[ str::to_uppercase ](s: &str) -> (upper: String)
    ensures
        upper@ == uppercase(s@),
        (forall|i: int| 0 <= i < s@.len() ==> (#[trigger] s@[i] as int) < 128) ==> upper@
            == s@.map_values(|c: char| ascii_upper(c)),
;

/// The characters of `s`, in order.
pub fn chars_of(s: &str) -> (chars: Vec<char>)
    ensures
        chars@ == s@,
{
    let mut chars: Vec<char> = Vec::new();
    for c in it: s.chars()
        invariant
            chars@ == it.seq().take(it.index()),
            it.seq() == s@,
    {
        chars.push(c);
    }
    chars
}

/// The string made of `chars`.
pub fn string_of(chars: &Vec<char>) -> (s: String)
    ensures
        s@ == chars@,
{
    let mut s: String = String::new();
    let mut i: usize = 0;
    while i < chars.len()
        invariant
            i <= chars@.len(),
            s@ == chars@.take(i as int),
        decreases chars@.len() - i,
    {
        s.push(chars[i]);
        i += 1;
    }
    s
}


/// Whether two texts are equal.
pub fn text_eq(a: &str, b: &str) -> (same: bool)
    ensures
        same == (a@ == b@),
{
    let left: Vec<char> = chars_of(a);
    let right: Vec<char> = chars_of(b);
    if left.len() != right.len() {
        return false;
    }
    let mut i: usize = 0;
    while i < left.len()
        invariant
            i <= left@.len(),
            left@.len() == right@.len(),
            left@ == a@,
            right@ == b@,
            forall|j: int| 0 <= j < i ==> left@[j] == right@[j],
        decreases left@.len() - i,
    {
        if left[i] != right[i] {
            return false;
        }
        i += 1;
    }
    proof {
        assert(a@ =~= b@);
    }
    true
}

/// `a` followed by `b`.
pub fn joined_text(a: &str, b: &str) -> (s: String)
    ensures
        s@ == a@ + b@,
{
    let mut s: String = a.to_owned();
    s.append(b);
    s
}

/// The view of a text that may be missing.
pub open spec fn option_view(s: Option<String>) -> Option<Seq<char>> {
    match s {
        Some(t) => Some(t@),
        None => None,
    }
}

/// The view of a text or of the text of an error.
pub open spec fn result_view(r: Result<String, String>) -> Result<Seq<char>, Seq<char>> {
    match r {
        Ok(t) => Ok(t@),
        Err(e) => Err(e@),
    }
}

// ------------------------------------------------------------------- order

/// Whether `a` comes before `b`, or is equal to it, in the order by code points.
pub open spec fn text_le(a: Seq<char>, b: Seq<char>) -> bool
    decreases a.len(),
{
    if a.len() == 0 {
        true
    } else if b.len() == 0 {
        false
    } else if a[0] == b[0] {
        text_le(a.skip(1), b.skip(1))
    } else {
        a[0] < b[0]
    }
}

/// Of two texts one comes first, unless they are equal.
pub proof fn text_order_is_total(a: Seq<char>, b: Seq<char>)
    ensures
        text_le(a, b) || text_le(b, a),
        text_le(a, b) && text_le(b, a) ==> a == b,
    decreases a.len(),
{
    if a.len() > 0 && b.len() > 0 && a[0] == b[0] {
        text_order_is_total(a.skip(1), b.skip(1));
        assert(a =~= seq![a[0]] + a.skip(1));
        assert(b =~= seq![b[0]] + b.skip(1));
    } else if a.len() == 0 && b.len() == 0 {
        assert(a =~= b);
    }
}

/// What comes before something comes before all that follows on it.
pub proof fn text_order_is_transitive(a: Seq<char>, b: Seq<char>, c: Seq<char>)
    requires
        text_le(a, b),
        text_le(b, c),
    ensures
        text_le(a, c),
    decreases a.len(),
{
    if a.len() > 0 && b.len() > 0 && c.len() > 0 && a[0] == b[0] && b[0] == c[0] {
        text_order_is_transitive(a.skip(1), b.skip(1), c.skip(1));
    }
}

/// Whether `a` comes before `b`, or is equal to it.
pub fn text_at_most(a: &str, b: &str) -> (at_most: bool)
    ensures
        at_most == text_le(a@, b@),
{
    let left: Vec<char> = chars_of(a);
    let right: Vec<char> = chars_of(b);
    let mut i: usize = 0;
    proof {
        assert(left@.skip(0) =~= left@);
        assert(right@.skip(0) =~= right@);
    }
    while i < left.len() && i < right.len() && left[i] == right[i]
        invariant
            i <= left@.len(),
            i <= right@.len(),
            left@ == a@,
            right@ == b@,
            text_le(a@, b@) == text_le(left@.skip(i as int), right@.skip(i as int)),
        decreases left@.len() - i,
    {
        proof {
            assert(left@.skip(i as int).skip(1) =~= left@.skip(i + 1));
            assert(right@.skip(i as int).skip(1) =~= right@.skip(i + 1));
        }
        i += 1;
    }
    if i == left.len() {
        true
    } else if i == right.len() {
        false
    } else {
        left[i] < right[i]
    }
}

// ---------------------------------------------------------------- prefixes

/// Whether `s` reads `pattern` from position `at` on.
pub open spec fn reads_at(s: Seq<char>, at: int, pattern: Seq<char>) -> bool {
    at + pattern.len() <= s.len() && s.subrange(at, at + pattern.len()) == pattern
}

/// Whether `s` reads `pattern` from position `at` on.
pub fn reads_from(s: &Vec<char>, at: usize, pattern: &Vec<char>) -> (found: bool)
    requires
        at <= s@.len(),
    ensures
        found == reads_at(s@, at as int, pattern@),
{
    let len: usize = s.len();
    if len - at < pattern.len() {
        return false;
    }
    let mut i: usize = 0;
    while i < pattern.len()
        invariant
            i <= pattern@.len(),
            len == s@.len(),
            at + pattern@.len() <= s@.len(),
            forall|j: int| 0 <= j < i ==> s@[at + j] == pattern@[j],
        decreases pattern@.len() - i,
    {
        if s[at + i] != pattern[i] {
            proof {
                assert(s@.subrange(at as int, at + pattern@.len())[i as int] != pattern@[i as int]);
            }
            return false;
        }
        i += 1;
    }
    proof {
        assert(s@.subrange(at as int, at + pattern@.len()) =~= pattern@);
    }
    true
}

/// The characters of `s` from `from` up to, not including, `to`.
pub fn part_of(s: &Vec<char>, from: usize, to: usize) -> (part: Vec<char>)
    requires
        from <= to <= s@.len(),
    ensures
        part@ == s@.subrange(from as int, to as int),
{
    let mut part: Vec<char> = Vec::new();
    let mut i: usize = from;
    while i < to
        invariant
            from <= i <= to <= s@.len(),
            part@ == s@.subrange(from as int, i as int),
        decreases to - i,
    {
        part.push(s[i]);
        i += 1;
        proof {
            assert(part@ =~= s@.subrange(from as int, i as int));
        }
    }
    part
}

/// The first position at or after `at` where `s` reads `pattern`, if any.
pub open spec fn find_from(s: Seq<char>, at: int, pattern: Seq<char>) -> Option<int>
    decreases s.len() - at + 1,
{
    if at < 0 || at > s.len() {
        None
    } else if reads_at(s, at, pattern) {
        Some(at)
    } else {
        find_from(s, at + 1, pattern)
    }
}

/// The first position at or after `at` where `s` reads `pattern`, if any.
pub fn find_text(s: &Vec<char>, at: usize, pattern: &Vec<char>) -> (found: Option<usize>)
    requires
        at <= s@.len(),
    ensures
        match found {
            Some(i) => find_from(s@, at as int, pattern@) == Some(i as int),
            None => find_from(s@, at as int, pattern@) is None,
        },
        found matches Some(i) ==> at <= i && reads_at(s@, i as int, pattern@),
{
    let mut i: usize = at;
    loop
        invariant
            at <= i <= s@.len(),
            find_from(s@, at as int, pattern@) == find_from(s@, i as int, pattern@),
        decreases s@.len() - i,
    {
        if reads_from(s, i, pattern) {
            return Some(i);
        }
        if i == s.len() {
            proof {
                reveal_with_fuel(find_from, 2);
            }
            return None;
        }
        i += 1;
    }
}

// ------------------------------------------------------------- replacement

/// `s` with `with` in place of every occurrence of `pattern`, found from left
/// to right without overlap.
pub open spec fn replace_all(s: Seq<char>, pattern: Seq<char>, with: Seq<char>) -> Seq<char>
    recommends
        pattern.len() > 0,
    decreases s.len(),
{
    if pattern.len() == 0 || s.len() < pattern.len() {
        s
    } else if reads_at(s, 0, pattern) {
        with + replace_all(s.skip(pattern.len() as int), pattern, with)
    } else {
        seq![s[0]] + replace_all(s.skip(1), pattern, with)
    }
}

/// `s` with `with` in place of every occurrence of `pattern`.
pub fn replaced(s: &Vec<char>, pattern: &Vec<char>, with: &Vec<char>) -> (out: Vec<char>)
    requires
        pattern@.len() > 0,
    ensures
        out@ == replace_all(s@, pattern@, with@),
{
    let mut out: Vec<char> = Vec::new();
    let mut at: usize = 0;
    proof {
        assert(s@.skip(0) =~= s@);
        assert(out@ + replace_all(s@, pattern@, with@) =~= replace_all(s@, pattern@, with@));
    }
    while at < s.len()
        invariant
            at <= s@.len(),
            pattern@.len() > 0,
            out@ + replace_all(s@.skip(at as int), pattern@, with@) == replace_all(
                s@,
                pattern@,
                with@,
            ),
        decreases s@.len() - at,
    {
        let ghost rest = s@.skip(at as int);
        let ghost before = out@;
        let here: bool = reads_from(s, at, pattern);
        proof {
            if at + pattern@.len() <= s@.len() {
                assert(rest.subrange(0, pattern@.len() as int) =~= s@.subrange(
                    at as int,
                    at + pattern@.len(),
                ));
            }
        }
        if here {
            append_chars(&mut out, with);
            at += pattern.len();
            proof {
                assert(rest.skip(pattern@.len() as int) =~= s@.skip(at as int));
                assert((before + with@) + replace_all(s@.skip(at as int), pattern@, with@)
                    =~= before + (with@ + replace_all(s@.skip(at as int), pattern@, with@)));
            }
        } else {
            out.push(s[at]);
            at += 1;
            proof {
                assert(rest.skip(1) =~= s@.skip(at as int));
                assert(before.push(rest[0]) =~= before + seq![rest[0]]);
                if rest.len() < pattern@.len() {
                    assert(replace_all(s@.skip(at as int), pattern@, with@) == s@.skip(at as int));
                    assert(rest =~= seq![rest[0]] + s@.skip(at as int));
                }
                assert(before + seq![rest[0]] + replace_all(s@.skip(at as int), pattern@, with@)
                    =~= before + (seq![rest[0]] + replace_all(
                    s@.skip(at as int),
                    pattern@,
                    with@,
                )));
            }
        }
    }
    proof {
        assert(s@.skip(at as int).len() == 0);
        assert(out@ + replace_all(s@.skip(at as int), pattern@, with@) =~= out@);
    }
    out
}

/// Appends `more` to `out`.
pub fn append_chars(out: &mut Vec<char>, more: &Vec<char>)
    ensures
        final(out)@ == old(out)@ + more@,
{
    let ghost before = out@;
    let mut i: usize = 0;
    while i < more.len()
        invariant
            i <= more@.len(),
            out@ == before + more@.take(i as int),
        decreases more@.len() - i,
    {
        out.push(more[i]);
        i += 1;
        proof {
            assert(out@ =~= before + more@.take(i as int));
        }
    }
    proof {
        assert(more@.take(i as int) =~= more@);
    }
}

// -------------------------------------------------------------- whitespace

/// Whether `c` has the Unicode property `White_Space`.
pub open spec fn is_white_space(c: char) -> bool {
    let code = c as int;
    ||| 0x09 <= code <= 0x0d
    ||| code == 0x20
    ||| code == 0x85
    ||| code == 0xa0
    ||| code == 0x1680
    ||| 0x2000 <= code <= 0x200a
    ||| code == 0x2028
    ||| code == 0x2029
    ||| code == 0x202f
    ||| code == 0x205f
    ||| code == 0x3000
}

/// Whether `c` has the Unicode property `White_Space`.
pub fn white_space(c: char) -> (white: bool)
    ensures
        white == is_white_space(c),
{
    let code: u32 = c as u32;
    (0x09 <= code && code <= 0x0d) || code == 0x20 || code == 0x85 || code == 0xa0 || code == 0x1680
        || (0x2000 <= code && code <= 0x200a) || code == 0x2028 || code == 0x2029 || code == 0x202f
        || code == 0x205f || code == 0x3000
}

/// Whether `s` holds nothing but white space.
pub open spec fn is_blank(s: Seq<char>) -> bool {
    forall|i: int| 0 <= i < s.len() ==> is_white_space(#[trigger] s[i])
}

/// `s` without the white space that it starts with.
pub open spec fn trim_start(s: Seq<char>) -> Seq<char>
    decreases s.len(),
{
    if s.len() > 0 && is_white_space(s[0]) {
        trim_start(s.skip(1))
    } else {
        s
    }
}

/// `s` without the white space that it ends with.
pub open spec fn trim_end(s: Seq<char>) -> Seq<char>
    decreases s.len(),
{
    if s.len() > 0 && is_white_space(s.last()) {
        trim_end(s.drop_last())
    } else {
        s
    }
}

/// `s` without the white space at either end.
pub open spec fn trim(s: Seq<char>) -> Seq<char> {
    trim_end(trim_start(s))
}

/// A blank text trims to nothing, and no other text does.
pub proof fn trim_is_empty_only_of_blank(s: Seq<char>)
    ensures
        (trim(s).len() == 0) == is_blank(s),
{
    trim_start_is_empty_only_of_blank(s);
    trim_end_is_empty_only_of_blank(trim_start(s));
    if s.len() > 0 && !is_blank(s) {
        trim_start_is_a_suffix(s);
    }
}

/// Trimmed text neither starts nor ends with white space, and trimming it again
/// leaves it as it is.
pub proof fn trimmed_text_has_no_space_around(s: Seq<char>)
    ensures
        trim(s).len() > 0 ==> !is_white_space(trim(s)[0]) && !is_white_space(trim(s).last()),
        trim(trim(s)) == trim(s),
{
    trim_start_is_empty_only_of_blank(s);
    trim_end_keeps_the_start(trim_start(s));
}

proof fn trim_end_keeps_the_start(s: Seq<char>)
    ensures
        trim_end(s).len() > 0 ==> trim_end(s)[0] == s[0] && !is_white_space(trim_end(s).last()),
    decreases s.len(),
{
    if s.len() > 0 && is_white_space(s.last()) {
        trim_end_keeps_the_start(s.drop_last());
    }
}

proof fn trim_start_is_empty_only_of_blank(s: Seq<char>)
    ensures
        (trim_start(s).len() == 0) == is_blank(s),
        trim_start(s).len() > 0 ==> !is_white_space(trim_start(s)[0]),
    decreases s.len(),
{
    if s.len() > 0 && is_white_space(s[0]) {
        let rest = s.skip(1);
        trim_start_is_empty_only_of_blank(rest);
        if is_blank(rest) {
            assert forall|i: int| 0 <= i < s.len() implies is_white_space(#[trigger] s[i]) by {
                if i > 0 {
                    assert(rest[i - 1] == s[i]);
                }
            }
        }
        if is_blank(s) {
            assert forall|i: int| 0 <= i < rest.len() implies is_white_space(#[trigger] rest[i]) by {
                assert(s[i + 1] == rest[i]);
            }
        }
    }
}

proof fn trim_end_is_empty_only_of_blank(s: Seq<char>)
    ensures
        (trim_end(s).len() == 0) == is_blank(s),
    decreases s.len(),
{
    if s.len() > 0 && is_white_space(s.last()) {
        let front = s.drop_last();
        trim_end_is_empty_only_of_blank(front);
        if is_blank(front) {
            assert forall|i: int| 0 <= i < s.len() implies is_white_space(#[trigger] s[i]) by {
                if i < s.len() - 1 {
                    assert(front[i] == s[i]);
                }
            }
        }
        if is_blank(s) {
            assert forall|i: int| 0 <= i < front.len() implies is_white_space(#[trigger] front[i]) by {
                assert(s[i] == front[i]);
            }
        }
    }
}

proof fn trim_start_is_a_suffix(s: Seq<char>)
    ensures
        trim_start(s).len() <= s.len(),
        trim_start(s) == s.skip(s.len() - trim_start(s).len()),
    decreases s.len(),
{
    if s.len() > 0 && is_white_space(s[0]) {
        trim_start_is_a_suffix(s.skip(1));
        assert(s.skip(1).skip(s.skip(1).len() - trim_start(s).len()) =~= s.skip(
            s.len() - trim_start(s).len(),
        ));
    } else {
        assert(s.skip(0) =~= s);
    }
}

/// `s` without the white space at either end.
pub fn trimmed(s: &Vec<char>) -> (t: Vec<char>)
    ensures
        t@ == trim(s@),
{
    let mut from: usize = 0;
    proof {
        assert(s@.skip(0) =~= s@);
    }
    while from < s.len() && white_space(s[from])
        invariant
            from <= s@.len(),
            trim_start(s@) == trim_start(s@.skip(from as int)),
        decreases s@.len() - from,
    {
        proof {
            assert(s@.skip(from as int).skip(1) =~= s@.skip(from + 1));
        }
        from += 1;
    }
    let mut to: usize = s.len();
    proof {
        assert(s@.subrange(from as int, to as int) =~= s@.skip(from as int));
    }
    while to > from && white_space(s[to - 1])
        invariant
            from <= to <= s@.len(),
            trim_end(s@.skip(from as int)) == trim_end(s@.subrange(from as int, to as int)),
        decreases to - from,
    {
        proof {
            assert(s@.subrange(from as int, to as int).drop_last() =~= s@.subrange(
                from as int,
                to - 1,
            ));
        }
        to -= 1;
    }
    part_of(s, from, to)
}

/// Whether `s` holds nothing but white space.
pub fn blank(s: &Vec<char>) -> (b: bool)
    ensures
        b == is_blank(s@),
{
    let mut i: usize = 0;
    while i < s.len()
        invariant
            i <= s@.len(),
            forall|j: int| 0 <= j < i ==> is_white_space(#[trigger] s@[j]),
        decreases s@.len() - i,
    {
        if !white_space(s[i]) {
            return false;
        }
        i += 1;
    }
    true
}

// ------------------------------------------------------------------- lines

/// A line without the carriage return that it may end with.
pub open spec fn without_carriage_return(line: Seq<char>) -> Seq<char> {
    if line.len() > 0 && line.last() == '\r' {
        line.drop_last()
    } else {
        line
    }
}

/// The lines of `s`. A line ends with a newline, or with a carriage return and
/// a newline, and neither belongs to it; what follows the last newline is a line
/// too, unless it is empty.
pub open spec fn lines(s: Seq<char>) -> Seq<Seq<char>>
    decreases s.len(),
{
    if s.len() == 0 {
        Seq::empty()
    } else {
        match find_from(s, 0, seq!['\n']) {
            Some(i) => if 0 <= i < s.len() {
                seq![without_carriage_return(s.take(i))] + lines(s.skip(i + 1))
            } else {
                seq![s]
            },
            None => seq![s],
        }
    }
}

/// The views of a vector of strings.
pub open spec fn string_views(v: Seq<String>) -> Seq<Seq<char>> {
    v.map_values(|s: String| s@)
}

/// The views of a vector of character vectors.
pub open spec fn char_views(v: Seq<Vec<char>>) -> Seq<Seq<char>> {
    v.map_values(|c: Vec<char>| c@)
}

/// The lines of `s`.
pub fn lines_of(s: &Vec<char>) -> (found: Vec<Vec<char>>)
    ensures
        char_views(found@) == lines(s@),
{
    let mut found: Vec<Vec<char>> = Vec::new();
    let mut newline: Vec<char> = Vec::new();
    newline.push('\n');
    proof {
        assert(newline@ =~= seq!['\n']);
        assert(s@.skip(0) =~= s@);
        assert(char_views(found@) + lines(s@) =~= lines(s@));
    }
    let mut at: usize = 0;
    while at < s.len()
        invariant
            at <= s@.len(),
            newline@ == seq!['\n'],
            char_views(found@) + lines(s@.skip(at as int)) == lines(s@),
        decreases s@.len() - at,
    {
        let ghost rest = s@.skip(at as int);
        let ghost before = char_views(found@);
        let next: Option<usize> = find_text(s, at, &newline);
        proof {
            find_from_in_suffix(s@, at as int, at as int, seq!['\n']);
        }
        match next {
            Some(end) => {
                proof {
                    assert(rest.take(end - at) =~= s@.subrange(at as int, end as int));
                    assert(rest.skip(end - at + 1) =~= s@.skip(end + 1));
                }
                let line: Vec<char> = if end > at && s[end - 1] == '\r' {
                    proof {
                        assert(s@.subrange(at as int, end as int).drop_last() =~= s@.subrange(
                            at as int,
                            end - 1,
                        ));
                    }
                    part_of(s, at, end - 1)
                } else {
                    part_of(s, at, end)
                };
                proof {
                    assert(line@ == without_carriage_return(rest.take(end - at)));
                }
                found.push(line);
                at = end + 1;
                proof {
                    assert(char_views(found@) =~= before.push(line@));
                    assert(before.push(line@) + lines(s@.skip(at as int)) =~= before + (seq![line@]
                        + lines(s@.skip(at as int))));
                }
            },
            None => {
                let line: Vec<char> = part_of(s, at, s.len());
                proof {
                    assert(line@ =~= rest);
                }
                found.push(line);
                at = s.len();
                proof {
                    assert(char_views(found@) =~= before.push(line@));
                    assert(s@.skip(at as int).len() == 0);
                    assert(char_views(found@) + lines(s@.skip(at as int)) =~= before + seq![rest]);
                }
            },
        }
    }
    proof {
        assert(s@.skip(at as int).len() == 0);
        assert(char_views(found@) + lines(s@.skip(at as int)) =~= char_views(found@));
    }
    found
}

/// The position found is the first one: `pattern` is read there and nowhere
/// between `at` and it; where nothing is found, `pattern` is read nowhere.
pub proof fn find_from_is_first(s: Seq<char>, at: int, pattern: Seq<char>)
    requires
        0 <= at,
    ensures
        match find_from(s, at, pattern) {
            Some(i) => at <= i && reads_at(s, i, pattern) && forall|j: int|
                at <= j < i ==> !#[trigger] reads_at(s, j, pattern),
            None => forall|j: int| at <= j ==> !#[trigger] reads_at(s, j, pattern),
        },
    decreases s.len() - at + 1,
{
    if at <= s.len() && !reads_at(s, at, pattern) {
        find_from_is_first(s, at + 1, pattern);
    }
}

/// Looking for `pattern` in the part of `s` after `cut` is looking for it in `s`
/// from there on.
pub proof fn find_from_in_suffix(s: Seq<char>, cut: int, at: int, pattern: Seq<char>)
    requires
        0 <= cut <= at,
        cut <= s.len(),
    ensures
        match find_from(s, at, pattern) {
            Some(i) => find_from(s.skip(cut), at - cut, pattern) == Some(i - cut),
            None => find_from(s.skip(cut), at - cut, pattern) is None,
        },
        find_from(s, at, pattern) matches Some(i) ==> at <= i && reads_at(s, i, pattern),
    decreases s.len() - at + 1,
{
    if at <= s.len() {
        let rest = s.skip(cut);
        if at + pattern.len() <= s.len() {
            assert(rest.subrange(at - cut, at - cut + pattern.len()) =~= s.subrange(
                at,
                at + pattern.len(),
            ));
        }
        assert(reads_at(rest, at - cut, pattern) == reads_at(s, at, pattern));
        if !reads_at(s, at, pattern) {
            find_from_in_suffix(s, cut, at + 1, pattern);
        }
    }
}

} // verus!
