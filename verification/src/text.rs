//! Character-level text handling: the few `str` operations that lockfile
//! parsing needs, each given a specification over `Seq<char>` and an
//! executable version on `[char]` slices that is proved against it.
use vstd::prelude::*;

verus! {

/// The Unicode `White_Space` property, which `char::is_whitespace` and
/// `str::trim` go by.
pub open spec fn is_white_space(c: char) -> bool {
    ||| ('\u{9}' <= c && c <= '\u{d}')
    ||| c == ' '
    ||| c == '\u{85}'
    ||| c == '\u{a0}'
    ||| c == '\u{1680}'
    ||| ('\u{2000}' <= c && c <= '\u{200a}')
    ||| c == '\u{2028}'
    ||| c == '\u{2029}'
    ||| c == '\u{202f}'
    ||| c == '\u{205f}'
    ||| c == '\u{3000}'
}

/// A set of characters that a trim removes.
#[derive(Clone, Copy)]
pub enum CharClass {
    /// Every character with the `White_Space` property (`str::trim`).
    WhiteSpace,
    /// One given character (`str::trim_matches(c)`).
    Exactly(char),
}

pub open spec fn in_class(class: CharClass, c: char) -> bool {
    match class {
        CharClass::WhiteSpace => is_white_space(c),
        CharClass::Exactly(d) => c == d,
    }
}

/// `s` with every leading character of `class` removed.
pub open spec fn trim_start(s: Seq<char>, class: CharClass) -> Seq<char>
    decreases s.len(),
{
    if s.len() > 0 && in_class(class, s[0]) {
        trim_start(s.drop_first(), class)
    } else {
        s
    }
}

/// `s` with every trailing character of `class` removed.
pub open spec fn trim_end(s: Seq<char>, class: CharClass) -> Seq<char>
    decreases s.len(),
{
    if s.len() > 0 && in_class(class, s.last()) {
        trim_end(s.drop_last(), class)
    } else {
        s
    }
}

/// `s` with every leading and trailing character of `class` removed.
pub open spec fn trim(s: Seq<char>, class: CharClass) -> Seq<char> {
    trim_end(trim_start(s, class), class)
}

pub open spec fn starts_with(s: Seq<char>, prefix: Seq<char>) -> bool {
    prefix.len() <= s.len() && s.take(prefix.len() as int) == prefix
}

/// `i` is the position of the first `c` in `s`.
pub open spec fn is_first_index(s: Seq<char>, c: char, i: int) -> bool {
    &&& 0 <= i < s.len()
    &&& s[i] == c
    &&& forall|j: int| 0 <= j < i ==> s[j] != c
}

/// The position of the first `c` in `s`, as `str::find(c)` gives it.
pub open spec fn find_char(s: Seq<char>, c: char) -> Option<int> {
    if exists|i: int| is_first_index(s, c, i) {
        Some(choose|i: int| is_first_index(s, c, i))
    } else {
        None
    }
}

/// What `s.split(c).next()` yields: everything before the first `c`.
pub open spec fn first_segment(s: Seq<char>, c: char) -> Seq<char> {
    match find_char(s, c) {
        Some(i) => s.take(i),
        None => s,
    }
}

/// What `s.split(c).nth(1)` yields: the text between the first and the
/// second `c` (or the end), when `s` holds a `c` at all.
pub open spec fn second_segment(s: Seq<char>, c: char) -> Option<Seq<char>> {
    match find_char(s, c) {
        Some(i) => Some(first_segment(s.skip(i + 1), c)),
        None => None,
    }
}

/// A line as `str::lines` yields it: a `'\r'` that stood before the
/// terminating `'\n'` is removed.
pub open spec fn strip_cr(line: Seq<char>) -> Seq<char> {
    if line.len() > 0 && line.last() == '\r' {
        line.drop_last()
    } else {
        line
    }
}

/// The lines of `s`, as `str::lines` yields them: split after each `'\n'`,
/// the line terminator (`"\n"` or `"\r\n"`) removed, and no empty line after
/// a final terminator.
pub open spec fn lines(s: Seq<char>) -> Seq<Seq<char>>
    decreases s.len(),
{
    if s.len() == 0 {
        Seq::empty()
    } else {
        match find_char(s, '\n') {
            Some(i) => seq![strip_cr(s.take(i))] + lines(s.skip(i + 1)),
            None => seq![s],
        }
    }
}

pub proof fn lemma_find_char_is_first(s: Seq<char>, c: char, i: int)
    requires
        is_first_index(s, c, i),
    ensures
        find_char(s, c) == Some(i),
{
    let k: int = choose|k: int| is_first_index(s, c, k);
    assert(is_first_index(s, c, k));
    if k < i {
        assert(s[k] != c);
    } else if i < k {
        assert(s[i] != c);
    }
}

/// What `find_char` finds is the first occurrence.
pub proof fn lemma_find_char_found(s: Seq<char>, c: char)
    ensures
        find_char(s, c) matches Some(i) ==> is_first_index(s, c, i),
{
}

/// The position of the first `c` in `s` (`str::find`).
pub fn find_index(s: &[char], c: char) -> (res: Option<usize>)
    ensures
        match res {
            Some(i) => find_char(s@, c) == Some(i as int),
            None => find_char(s@, c) is None,
        },
{
    let mut i: usize = 0;
    while i < s.len()
        invariant
            i <= s@.len(),
            forall|j: int| 0 <= j < i ==> s@[j] != c,
        decreases s@.len() - i,
    {
        if s[i] == c {
            proof {
                lemma_find_char_is_first(s@, c, i as int);
            }
            return Some(i);
        }
        i = i + 1;
    }
    None
}

pub fn in_class_exec(class: CharClass, c: char) -> (res: bool)
    ensures
        res == in_class(class, c),
{
    match class {
        CharClass::WhiteSpace => {
            ('\u{9}' <= c && c <= '\u{d}') || c == ' ' || c == '\u{85}' || c == '\u{a0}'
                || c == '\u{1680}' || ('\u{2000}' <= c && c <= '\u{200a}') || c == '\u{2028}'
                || c == '\u{2029}' || c == '\u{202f}' || c == '\u{205f}' || c == '\u{3000}'
        },
        CharClass::Exactly(d) => c == d,
    }
}

/// `s` without its leading and trailing characters of `class`
/// (`str::trim`, `str::trim_matches`).
pub fn trim_slice<'a>(s: &'a [char], class: CharClass) -> (res: &'a [char])
    ensures
        res@ == trim(s@, class),
{
    let mut start: usize = 0;
    assert(s@.skip(0) == s@);
    while start < s.len() && in_class_exec(class, s[start])
        invariant
            start <= s@.len(),
            trim_start(s@, class) == trim_start(s@.skip(start as int), class),
        decreases s@.len() - start,
    {
        assert(s@.skip(start as int).drop_first() == s@.skip(start + 1));
        start = start + 1;
    }
    assert(trim_start(s@, class) == s@.subrange(start as int, s@.len() as int));
    let mut end: usize = s.len();
    while end > start && in_class_exec(class, s[end - 1])
        invariant
            start <= end <= s@.len(),
            trim(s@, class) == trim_end(s@.subrange(start as int, end as int), class),
        decreases end - start,
    {
        assert(s@.subrange(start as int, end as int).drop_last() == s@.subrange(
            start as int,
            end - 1,
        ));
        end = end - 1;
    }
    &s[start..end]
}

/// `s` without its leading `c` characters (`str::trim_start_matches`).
pub fn trim_start_slice<'a>(s: &'a [char], c: char) -> (res: &'a [char])
    ensures
        res@ == trim_start(s@, CharClass::Exactly(c)),
{
    let mut start: usize = 0;
    assert(s@.skip(0) == s@);
    while start < s.len() && s[start] == c
        invariant
            start <= s@.len(),
            trim_start(s@, CharClass::Exactly(c)) == trim_start(
                s@.skip(start as int),
                CharClass::Exactly(c),
            ),
        decreases s@.len() - start,
    {
        assert(s@.skip(start as int).drop_first() == s@.skip(start + 1));
        start = start + 1;
    }
    &s[start..s.len()]
}

/// Whether `s` begins with `prefix` (`str::starts_with`).
pub fn starts_with_str(s: &[char], prefix: &str) -> (res: bool)
    ensures
        res == starts_with(s@, prefix@),
{
    let n: usize = prefix.unicode_len();
    if n > s.len() {
        return false;
    }
    let mut i: usize = 0;
    while i < n
        invariant
            n == prefix@.len(),
            n <= s@.len(),
            i <= n,
            forall|j: int| 0 <= j < i ==> s@[j] == prefix@[j],
        decreases n - i,
    {
        if s[i] != prefix.get_char(i) {
            assert(s@.take(n as int)[i as int] != prefix@[i as int]);
            return false;
        }
        i = i + 1;
    }
    assert(s@.take(n as int) == prefix@);
    true
}

/// Whether `s` holds exactly the characters of `t`.
pub fn eq_str(s: &[char], t: &str) -> (res: bool)
    ensures
        res == (s@ == t@),
{
    let n: usize = t.unicode_len();
    if n != s.len() {
        return false;
    }
    let b = starts_with_str(s, t);
    assert(s@.take(n as int) == s@);
    b
}

/// Whether `s` holds exactly the characters of `t`.
pub fn eq_string(s: &[char], t: &String) -> (res: bool)
    ensures
        res == (s@ == t@),
{
    eq_str(s, t.as_str())
}

/// Everything before the first `c` (`s.split(c).next()`).
pub fn first_segment_slice<'a>(s: &'a [char], c: char) -> (res: &'a [char])
    ensures
        res@ == first_segment(s@, c),
{
    match find_index(s, c) {
        Some(i) => &s[0..i],
        None => s,
    }
}

/// The text between the first and second `c` (`s.split(c).nth(1)`).
pub fn second_segment_slice<'a>(s: &'a [char], c: char) -> (res: Option<&'a [char]>)
    ensures
        match res {
            Some(r) => second_segment(s@, c) == Some(r@),
            None => second_segment(s@, c) is None,
        },
{
    match find_index(s, c) {
        Some(i) => {
            proof {
                lemma_find_char_found(s@, c);
            }
            assert(is_first_index(s@, c, i as int));
            let n: usize = s.len();
            let rest = &s[i + 1..n];
            assert(rest@ == s@.skip(i + 1));
            Some(first_segment_slice(rest, c))
        },
        None => None,
    }
}

/// The lines of `s` (`str::lines`).
pub fn lines_of<'a>(s: &'a [char]) -> (res: Vec<&'a [char]>)
    ensures
        res@.len() == lines(s@).len(),
        forall|k: int| 0 <= k < res@.len() ==> (#[trigger] res@[k])@ == lines(s@)[k],
{
    let mut res: Vec<&'a [char]> = Vec::new();
    let mut start: usize = 0;
    let ghost mut done: Seq<Seq<char>> = Seq::empty();
    assert(s@.skip(0) == s@);
    assert(Seq::<Seq<char>>::empty() + lines(s@) == lines(s@));
    while start < s.len()
        invariant
            start <= s@.len(),
            lines(s@) == done + lines(s@.skip(start as int)),
            res@.len() == done.len(),
            forall|k: int| 0 <= k < res@.len() ==> (#[trigger] res@[k])@ == done[k],
        decreases s@.len() - start,
    {
        let rest = &s[start..s.len()];
        assert(rest@ == s@.skip(start as int));
        match find_index(rest, '\n') {
            Some(i) => {
                proof {
                    lemma_find_char_found(rest@, '\n');
                }
                let mut end: usize = start + i;
                if i > 0 && s[end - 1] == '\r' {
                    end = end - 1;
                }
                let line = &s[start..end];
                assert(line@ == strip_cr(rest@.take(i as int)));
                assert(rest@.skip(i + 1) == s@.skip(start + i + 1));
                proof {
                    done = done.push(line@);
                }
                res.push(line);
                start = start + i + 1;
            },
            None => {
                let line = &s[start..s.len()];
                proof {
                    done = done.push(line@);
                }
                res.push(line);
                start = s.len();
                assert(s@.skip(start as int).len() == 0);
            },
        }
    }
    assert(lines(s@.skip(start as int)) == Seq::<Seq<char>>::empty());
    assert(done + Seq::<Seq<char>>::empty() == done);
    res
}

/// The characters of `s`, in order.
pub fn chars_of(s: &str) -> (res: Vec<char>)
    ensures
        res@ == s@,
{
    let mut res: Vec<char> = Vec::new();
    for c in it: s.chars()
        invariant
            it.seq() == s@,
            res@ == s@.take(it.index() as int),
    {
        res.push(c);
    }
    assert(s@.take(s@.len() as int) == s@);
    res
}

/// `std`'s `FromIterator<&char> for String`: the string holds exactly the
/// given characters, in order.
#[verifier::external_body]
pub fn string_of(cs: &[char]) -> (res: String)
    ensures
        res@ == cs@,
{
    cs.iter().collect()
}

} // verus!
