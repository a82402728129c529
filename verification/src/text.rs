use vstd::prelude::*;
use vstd::string::*;

verus! {

/// The model of an outcome: the model of what it holds.
pub open spec fn result_model<T: DeepView, E: DeepView>(outcome: Result<T, E>) -> Result<T::V, E::V> {
    match outcome {
        Ok(value) => Ok(value.deep_view()),
        Err(error) => Err(error.deep_view()),
    }
}

/// Whether `c` carries the Unicode `White_Space` property.
pub open spec fn is_space(c: char) -> bool {
    let n = c as int;
    ||| 0x09 <= n <= 0x0D
    ||| n == 0x20
    ||| n == 0x85
    ||| n == 0xA0
    ||| n == 0x1680
    ||| 0x2000 <= n <= 0x200A
    ||| n == 0x2028
    ||| n == 0x2029
    ||| n == 0x202F
    ||| n == 0x205F
    ||| n == 0x3000
}

/// `s` without its leading white space.
pub open spec fn without_leading_space(s: Seq<char>) -> Seq<char>
    decreases s.len(),
{
    if s.len() > 0 && is_space(s[0]) {
        without_leading_space(s.drop_first())
    } else {
        s
    }
}

/// `s` without its trailing white space.
pub open spec fn without_trailing_space(s: Seq<char>) -> Seq<char>
    decreases s.len(),
{
    if s.len() > 0 && is_space(s.last()) {
        without_trailing_space(s.drop_last())
    } else {
        s
    }
}

/// `s` with white space removed at both ends.
pub open spec fn trimmed(s: Seq<char>) -> Seq<char> {
    without_trailing_space(without_leading_space(s))
}

/// `str::trim` removes, at both ends, the characters that carry the Unicode
/// `White_Space` property, and nothing else.
pub assume_specification[ str::trim ](s: &str) -> (r: &str)
    ensures
        r@ == trimmed(s@),
;

/// The lower-case form of a text, as the Unicode case mapping defines it.
pub uninterp spec fn lowercase(s: Seq<char>) -> Seq<char>;

/// `str::to_lowercase` returns the lower-case form of its argument; the
/// mapping itself is left to the standard library.
pub assume_specification[ str::to_lowercase ](s: &str) -> (r: String)
    ensures
        r@ == lowercase(s@),
;

/// Whether `needle` occurs in `hay` as a contiguous run.
pub open spec fn occurs_in(needle: Seq<char>, hay: Seq<char>) -> bool {
    exists|i: int| 0 <= i && i + needle.len() <= hay.len() && #[trigger] hay.subrange(i, i + needle.len()) == needle
}

/// Whether `s` begins with `prefix`.
pub open spec fn begins_with(s: Seq<char>, prefix: Seq<char>) -> bool {
    prefix.len() <= s.len() && s.subrange(0, prefix.len() as int) == prefix
}

/// Whether `s` ends with `suffix`.
pub open spec fn finishes_with(s: Seq<char>, suffix: Seq<char>) -> bool {
    suffix.len() <= s.len() && s.subrange(s.len() - suffix.len(), s.len() as int) == suffix
}

/// `str::contains` with a string pattern: true exactly when the pattern
/// occurs somewhere in the text.
#[verifier::external_body]
pub(crate) fn text_contains(hay: &str, needle: &str) -> (found: bool)
    ensures
        found == occurs_in(needle@, hay@),
{
    hay.contains(needle)
}

/// `str::starts_with` with a string pattern: true exactly when the text
/// begins with the pattern.
#[verifier::external_body]
pub(crate) fn text_starts_with(s: &str, prefix: &str) -> (yes: bool)
    ensures
        yes == begins_with(s@, prefix@),
{
    s.starts_with(prefix)
}

/// `str::ends_with` with a string pattern: true exactly when the text ends
/// with the pattern.
#[verifier::external_body]
pub(crate) fn text_ends_with(s: &str, suffix: &str) -> (yes: bool)
    ensures
        yes == finishes_with(s@, suffix@),
{
    s.ends_with(suffix)
}

/// The `==` of `str`: true exactly when the two hold the same characters.
#[verifier::external_body]
pub(crate) fn text_eq(a: &str, b: &str) -> (same: bool)
    ensures
        same == (a@ == b@),
{
    a == b
}

/// Lexicographic order on texts, character by character, by code point.
pub open spec fn lex_less(a: Seq<char>, b: Seq<char>) -> bool
    decreases a.len(),
{
    if b.len() == 0 {
        false
    } else if a.len() == 0 {
        true
    } else if a[0] != b[0] {
        (a[0] as int) < (b[0] as int)
    } else {
        lex_less(a.drop_first(), b.drop_first())
    }
}

/// The `<` of `str`: the standard library orders strings lexicographically
/// by their bytes, which is the order of their code points.
#[verifier::external_body]
pub(crate) fn text_less(a: &str, b: &str) -> (less: bool)
    ensures
        less == lex_less(a@, b@),
{
    a < b
}

/// Of two texts at most one is less than the other.
pub proof fn lemma_lex_less_asymmetric(a: Seq<char>, b: Seq<char>)
    requires
        lex_less(a, b),
    ensures
        !lex_less(b, a),
    decreases a.len(),
{
    if a.len() > 0 && b.len() > 0 && a[0] == b[0] {
        lemma_lex_less_asymmetric(a.drop_first(), b.drop_first());
    }
}

/// The order on texts is transitive.
pub proof fn lemma_lex_less_transitive(a: Seq<char>, b: Seq<char>, c: Seq<char>)
    requires
        lex_less(a, b),
        lex_less(b, c),
    ensures
        lex_less(a, c),
    decreases a.len(),
{
    if a.len() > 0 && b.len() > 0 && c.len() > 0 && a[0] == b[0] && b[0] == c[0] {
        lemma_lex_less_transitive(a.drop_first(), b.drop_first(), c.drop_first());
    }
}

/// Of two different texts one is less than the other.
pub proof fn lemma_lex_less_total(a: Seq<char>, b: Seq<char>)
    requires
        a != b,
    ensures
        lex_less(a, b) || lex_less(b, a),
    decreases a.len(),
{
    if a.len() > 0 && b.len() > 0 && a[0] == b[0] {
        if a.drop_first() == b.drop_first() {
            assert(a =~= seq![a[0]] + a.drop_first());
            assert(b =~= seq![b[0]] + b.drop_first());
        }
        lemma_lex_less_total(a.drop_first(), b.drop_first());
    } else if a.len() == 0 && b.len() == 0 {
        assert(a =~= b);
    }
}

/// The decimal digit for `d`, `0 <= d < 10`.
pub open spec fn digit(d: int) -> char {
    (('0' as int) + d) as char
}

/// The decimal numeral of a natural number, without leading zeros.
pub open spec fn natural_text(n: nat) -> Seq<char>
    decreases n,
{
    if n < 10 {
        seq![digit(n as int)]
    } else {
        natural_text(n / 10).push(digit((n % 10) as int))
    }
}

/// The decimal numeral of an integer, with `-` in front of a negative one.
pub open spec fn integer_text(n: int) -> Seq<char> {
    if n < 0 {
        seq!['-'] + natural_text((-n) as nat)
    } else {
        natural_text(n as nat)
    }
}

/// `i128::to_string`: the decimal numeral, with `-` in front of a negative number.
#[verifier::external_body]
pub(crate) fn decimal(n: i128) -> (text: String)
    ensures
        text@ == integer_text(n as int),
{
    n.to_string()
}

/// The characters of a string, in order.
pub fn chars_of(s: &str) -> (chars: Vec<char>)
    ensures
        chars@ == s@,
{
    let n = s.unicode_len();
    let mut chars: Vec<char> = Vec::new();
    let mut i: usize = 0;
    while i < n
        invariant
            i <= n,
            n == s@.len(),
            chars@ == s@.take(i as int),
        decreases n - i,
    {
        chars.push(s.get_char(i));
        assert(chars@ =~= s@.take(i + 1));
        i += 1;
    }
    assert(s@.take(n as int) =~= s@);
    chars
}

/// `String::push`: the character is added at the end.
#[verifier::external_body]
pub(crate) fn push_char(text: &mut String, c: char)
    ensures
        final(text)@ == old(text)@.push(c),
{
    text.push(c);
}

/// The string made of the given characters, in order.
pub fn text_of(chars: &[char]) -> (text: String)
    ensures
        text@ == chars@,
{
    let mut text = String::new();
    let mut i: usize = 0;
    while i < chars.len()
        invariant
            i <= chars.len(),
            text@ == chars@.take(i as int),
        decreases chars.len() - i,
    {
        push_char(&mut text, chars[i]);
        assert(text@ =~= chars@.take(i + 1));
        i += 1;
    }
    assert(chars@.take(chars.len() as int) =~= chars@);
    text
}

/// The lower-case form of an ASCII capital letter; any other character as it is.
pub open spec fn ascii_lower(c: char) -> char {
    if 'A' <= c <= 'Z' {
        ((c as int) + 32) as char
    } else {
        c
    }
}

/// Whether two texts are equal when ASCII capitals count as their small letters.
pub open spec fn same_ignoring_ascii_case(a: Seq<char>, b: Seq<char>) -> bool {
    a.len() == b.len() && forall|i: int| 0 <= i < a.len() ==> ascii_lower(a[i]) == ascii_lower(b[i])
}

/// `str::eq_ignore_ascii_case`: equality up to the case of ASCII letters.
#[verifier::external_body]
pub(crate) fn text_eq_ignoring_ascii_case(a: &str, b: &str) -> (same: bool)
    ensures
        same == same_ignoring_ascii_case(a@, b@),
{
    a.eq_ignore_ascii_case(b)
}

/// The trimmed text where it has no more than `max_chars` characters, or
/// else its first `max_chars` characters.
pub open spec fn summary_of(text: Seq<char>, max_chars: usize) -> Seq<char> {
    let cut = trimmed(text);
    if cut.len() <= max_chars {
        cut
    } else {
        cut.subrange(0, max_chars as int)
    }
}

/// A text cut to a summary of at most `max_chars` characters.
pub fn summarize_text(value: &str, max_chars: usize) -> (summary: String)
    ensures
        summary@ == summary_of(value@, max_chars),
        summary@.len() <= max_chars,
{
    let cut = value.trim();
    if cut.unicode_len() <= max_chars {
        cut.to_owned()
    } else {
        cut.substring_char(0, max_chars).to_owned()
    }
}

/// Whether `c` carries the Unicode `White_Space` property.
pub fn is_space_char(c: char) -> (r: bool)
    ensures
        r == is_space(c),
{
    let n = c as u32;
    (0x09 <= n && n <= 0x0D) || n == 0x20 || n == 0x85 || n == 0xA0 || n == 0x1680 || (0x2000 <= n && n <= 0x200A)
        || n == 0x2028 || n == 0x2029 || n == 0x202F || n == 0x205F || n == 0x3000
}

/// Whether `c` is an ASCII punctuation character.
pub open spec fn is_ascii_punct(c: char) -> bool {
    let n = c as int;
    (0x21 <= n <= 0x2F) || (0x3A <= n <= 0x40) || (0x5B <= n <= 0x60) || (0x7B <= n <= 0x7E)
}

/// Whether `c` is white space or ASCII punctuation.
pub open spec fn is_edge(c: char) -> bool {
    is_space(c) || is_ascii_punct(c)
}

/// Whether `c` is white space or ASCII punctuation.
pub fn is_edge_char(c: char) -> (edge: bool)
    ensures
        edge == is_edge(c),
{
    let n = c as u32;
    is_space_char(c) || (0x21 <= n && n <= 0x2F) || (0x3A <= n && n <= 0x40) || (0x5B <= n && n <= 0x60) || (0x7B
        <= n && n <= 0x7E)
}

/// `s` without its leading white space and punctuation.
pub open spec fn without_leading_edge(s: Seq<char>) -> Seq<char>
    decreases s.len(),
{
    if s.len() > 0 && is_edge(s[0]) {
        without_leading_edge(s.drop_first())
    } else {
        s
    }
}

/// `s` without its trailing white space and punctuation.
pub open spec fn without_trailing_edge(s: Seq<char>) -> Seq<char>
    decreases s.len(),
{
    if s.len() > 0 && is_edge(s.last()) {
        without_trailing_edge(s.drop_last())
    } else {
        s
    }
}

/// `s` with white space and ASCII punctuation removed at both ends.
pub open spec fn stripped(s: Seq<char>) -> Seq<char> {
    without_trailing_edge(without_leading_edge(s))
}

/// `str::trim_matches` with the test for white space and ASCII punctuation:
/// the characters that pass the test are removed at both ends.
#[verifier::external_body]
pub(crate) fn strip_edges(s: &str) -> (r: &str)
    ensures
        r@ == stripped(s@),
{
    s.trim_matches(|c: char| is_edge_char(c))
}

/// The words read so far and the word being read, after the characters of `s`.
pub open spec fn word_scan(s: Seq<char>) -> (Seq<Seq<char>>, Seq<char>)
    decreases s.len(),
{
    if s.len() == 0 {
        (Seq::empty(), Seq::empty())
    } else {
        let (done, current) = word_scan(s.drop_last());
        if is_space(s.last()) {
            if current.len() > 0 {
                (done.push(current), Seq::empty())
            } else {
                (done, Seq::empty())
            }
        } else {
            (done, current.push(s.last()))
        }
    }
}

/// The words of a text: its maximal runs of characters that are no white space.
pub open spec fn words_of(s: Seq<char>) -> Seq<Seq<char>> {
    let (done, current) = word_scan(s);
    if current.len() > 0 {
        done.push(current)
    } else {
        done
    }
}

/// The words of a text.
pub fn split_words(s: &str) -> (words: Vec<String>)
    ensures
        words.deep_view() == words_of(s@),
{
    let chars = chars_of(s);
    let mut words: Vec<String> = Vec::new();
    let mut current: Vec<char> = Vec::new();
    let mut i: usize = 0;
    assert(chars@.take(0) =~= Seq::<char>::empty());
    assert(words.deep_view() =~= Seq::<Seq<char>>::empty());
    while i < chars.len()
        invariant
            i <= chars.len(),
            chars@ == s@,
            (words.deep_view(), current@) == word_scan(chars@.take(i as int)),
        decreases chars.len() - i,
    {
        let ghost before = words.deep_view();
        proof {
            assert(chars@.take(i + 1).drop_last() =~= chars@.take(i as int));
            assert(chars@.take(i + 1).last() == chars@[i as int]);
        }
        let c = chars[i];
        if is_space_char(c) {
            if current.len() > 0 {
                let word = text_of(current.as_slice());
                words.push(word);
                assert(words.deep_view() =~= before.push(current@));
                current = Vec::new();
            }
        } else {
            current.push(c);
        }
        i += 1;
    }
    assert(chars@.take(i as int) =~= chars@);
    if current.len() > 0 {
        let ghost before = words.deep_view();
        let word = text_of(current.as_slice());
        words.push(word);
        assert(words.deep_view() =~= before.push(current@));
    }
    words
}

/// The part of `s` after its last slash.
pub open spec fn after_last_slash(s: Seq<char>) -> Seq<char>
    decreases s.len(),
{
    if s.len() == 0 {
        Seq::empty()
    } else if s.last() == '/' {
        Seq::empty()
    } else {
        after_last_slash(s.drop_last()).push(s.last())
    }
}

/// `s` without the slashes at its end.
pub open spec fn without_trailing_slashes(s: Seq<char>) -> Seq<char>
    decreases s.len(),
{
    if s.len() > 0 && s.last() == '/' {
        without_trailing_slashes(s.drop_last())
    } else {
        s
    }
}

/// Whether `s` is a single dot.
pub open spec fn is_dot(s: Seq<char>) -> bool {
    s.len() == 1 && s[0] == '.'
}

/// The last part of a path between slashes that is neither empty nor a
/// single dot; empty where the path has no such part.
pub open spec fn last_component(path: Seq<char>) -> Seq<char>
    decreases path.len(),
{
    if path.len() == 0 {
        Seq::empty()
    } else if path.last() == '/' || is_dot(after_last_slash(path)) {
        last_component(path.drop_last())
    } else {
        after_last_slash(path)
    }
}

/// Slashes at the end of a path do not change its last component.
pub proof fn lemma_last_component_skips_slashes(path: Seq<char>)
    ensures
        last_component(path) == last_component(without_trailing_slashes(path)),
    decreases path.len(),
{
    if path.len() > 0 && path.last() == '/' {
        lemma_last_component_skips_slashes(path.drop_last());
    }
}

/// The last component of a path, slashes and single dots aside; none
/// where there is no such component or it is two dots.
pub open spec fn basename_of(path: Seq<char>) -> Option<Seq<char>> {
    let name = last_component(path);
    if name.len() == 0 || name == ".."@ {
        None
    } else {
        Some(name)
    }
}

/// What is left of a path without the slashes at its end does not end in a slash.
proof fn lemma_body_ends_bare(path: Seq<char>)
    ensures
        without_trailing_slashes(path).len() > 0 ==> without_trailing_slashes(path).last() != '/',
    decreases path.len(),
{
    if path.len() > 0 && path.last() == '/' {
        lemma_body_ends_bare(path.drop_last());
    }
}

/// The place where the first `end` characters end once the slashes at
/// their end are left out.
fn before_trailing_slashes(chars: &Vec<char>, end: usize) -> (cut: usize)
    requires
        end <= chars.len(),
    ensures
        cut <= end,
        chars@.take(cut as int) == without_trailing_slashes(chars@.take(end as int)),
{
    let mut cut: usize = end;
    while cut > 0 && chars[cut - 1] == '/'
        invariant
            cut <= end,
            end <= chars.len(),
            without_trailing_slashes(chars@.take(end as int)) == without_trailing_slashes(chars@.take(cut as int)),
        decreases cut,
    {
        proof {
            assert(chars@.take(cut as int).drop_last() =~= chars@.take(cut - 1));
            assert(chars@.take(cut as int).last() == chars@[cut - 1]);
        }
        cut -= 1;
    }
    proof {
        if cut > 0 {
            assert(chars@.take(cut as int).last() == chars@[cut - 1]);
        }
    }
    cut
}

/// What follows the last slash among the first `end` characters.
fn last_segment(chars: &Vec<char>, end: usize) -> (name: Vec<char>)
    requires
        end <= chars.len(),
    ensures
        name@ == after_last_slash(chars@.take(end as int)),
{
    let ghost body = chars@.take(end as int);
    let mut name: Vec<char> = Vec::new();
    let mut i: usize = 0;
    assert(body.take(0) =~= Seq::<char>::empty());
    while i < end
        invariant
            i <= end,
            end <= chars.len(),
            body == chars@.take(end as int),
            name@ == after_last_slash(body.take(i as int)),
        decreases end - i,
    {
        proof {
            assert(body.take(i + 1).drop_last() =~= body.take(i as int));
            assert(body.take(i + 1).last() == body[i as int]);
            assert(body[i as int] == chars@[i as int]);
        }
        if chars[i] == '/' {
            name = Vec::new();
        } else {
            name.push(chars[i]);
        }
        i += 1;
    }
    assert(body.take(i as int) =~= body);
    name
}

/// The last component of a path.
pub fn path_basename(path: &str) -> (name: Option<String>)
    ensures
        name.deep_view() == basename_of(path@),
{
    let chars = chars_of(path);
    let mut end: usize = chars.len();
    assert(chars@.take(end as int) =~= chars@);
    let mut cut = before_trailing_slashes(&chars, end);
    let mut name = last_segment(&chars, cut);
    proof {
        lemma_last_component_skips_slashes(chars@.take(end as int));
    }
    while name.len() == 1 && name[0] == '.'
        invariant
            cut <= end,
            end <= chars.len(),
            chars@.take(cut as int) == without_trailing_slashes(chars@.take(end as int)),
            name@ == after_last_slash(chars@.take(cut as int)),
            last_component(chars@) == last_component(chars@.take(cut as int)),
        decreases end,
    {
        proof {
            assert(cut > 0);
            assert(chars@.take(cut as int).drop_last() =~= chars@.take(cut - 1));
            lemma_last_component_skips_slashes(chars@.take(cut - 1));
        }
        end = cut - 1;
        cut = before_trailing_slashes(&chars, end);
        name = last_segment(&chars, cut);
    }
    proof {
        let body = chars@.take(cut as int);
        if body.len() > 0 {
            lemma_body_ends_bare(chars@.take(end as int));
        }
    }
    assert(name@ == last_component(chars@));
    let text = text_of(name.as_slice());
    if text.as_str().unicode_len() == 0 || text_eq(text.as_str(), "..") {
        None
    } else {
        Some(text)
    }
}

} // verus!
