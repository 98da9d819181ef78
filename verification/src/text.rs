//! Text as sequences of characters: scanning, trimming, line splitting and
//! substring search. Every function works on `char` values, so that an index
//! always counts characters, never bytes.

use vstd::prelude::*;
use vstd::slice::{slice_subrange, slice_to_vec};

verus! {

/// Whether `c` has the Unicode property `White_Space`.
pub open spec fn is_whitespace(c: char) -> bool {
    let n = c as u32;
    ||| 0x0009 <= n <= 0x000D
    ||| n == 0x0020
    ||| n == 0x0085
    ||| n == 0x00A0
    ||| n == 0x1680
    ||| 0x2000 <= n <= 0x200A
    ||| n == 0x2028
    ||| n == 0x2029
    ||| n == 0x202F
    ||| n == 0x205F
    ||| n == 0x3000
}

/// A set of characters that a scan looks for.
#[derive(Clone, Copy, Debug)]
pub enum CharClass {
    /// Every character with the Unicode property `White_Space`.
    Whitespace,
    /// Space, tab and line feed: the characters that end a word.
    Blank,
    /// One character and no other.
    Just(char),
}

impl CharClass {
    /// Whether `c` belongs to the class.
    pub open spec fn has(self, c: char) -> bool {
        match self {
            CharClass::Whitespace => is_whitespace(c),
            CharClass::Blank => c == ' ' || c == '\t' || c == '\n',
            CharClass::Just(x) => c == x,
        }
    }

    /// Tests whether `c` belongs to the class.
    pub fn contains(self, c: char) -> (b: bool)
        ensures
            b == self.has(c),
    {
        match self {
            CharClass::Whitespace => {
                let n: u32 = c as u32;
                (0x0009 <= n && n <= 0x000D) || n == 0x0020 || n == 0x0085 || n == 0x00A0
                    || n == 0x1680 || (0x2000 <= n && n <= 0x200A) || n == 0x2028 || n == 0x2029
                    || n == 0x202F || n == 0x205F || n == 0x3000
            },
            CharClass::Blank => c == ' ' || c == '\t' || c == '\n',
            CharClass::Just(x) => c == x,
        }
    }
}

/// How many characters at the start of `s` belong to `class`.
pub open spec fn leading(s: Seq<char>, class: CharClass) -> nat
    decreases s.len(),
{
    if s.len() > 0 && class.has(s[0]) {
        1 + leading(s.drop_first(), class)
    } else {
        0
    }
}

/// How many characters at the end of `s` belong to `class`.
pub open spec fn trailing(s: Seq<char>, class: CharClass) -> nat
    decreases s.len(),
{
    if s.len() > 0 && class.has(s.last()) {
        1 + trailing(s.drop_last(), class)
    } else {
        0
    }
}

/// The index of the first character of `s` that belongs to `class`, or
/// `s.len()` where no character does.
pub open spec fn first_in(s: Seq<char>, class: CharClass) -> nat
    decreases s.len(),
{
    if s.len() > 0 && !class.has(s[0]) {
        1 + first_in(s.drop_first(), class)
    } else {
        0
    }
}

/// `s` without the characters of `class` at its start.
pub open spec fn strip_start(s: Seq<char>, class: CharClass) -> Seq<char> {
    s.skip(leading(s, class) as int)
}

/// `s` without the characters of `class` at its end.
pub open spec fn strip_end(s: Seq<char>, class: CharClass) -> Seq<char> {
    s.take(s.len() - trailing(s, class))
}

/// `s` without the whitespace at its start and at its end.
pub open spec fn trimmed(s: Seq<char>) -> Seq<char> {
    strip_end(strip_start(s, CharClass::Whitespace), CharClass::Whitespace)
}

/// `line` without one carriage return at its end.
pub open spec fn without_return(line: Seq<char>) -> Seq<char> {
    if line.len() > 0 && line.last() == '\r' {
        line.drop_last()
    } else {
        line
    }
}

/// The lines of `s`. A line ends at a line feed, or at the end of the text
/// where the last line feed is not the last character. A carriage return
/// directly before a line feed belongs to the line ending; the line ending is
/// no part of the line.
pub open spec fn lines_of(s: Seq<char>) -> Seq<Seq<char>>
    decreases s.len(),
{
    if s.len() == 0 {
        Seq::empty()
    } else {
        let n = first_in(s, CharClass::Just('\n'));
        if n >= s.len() {
            seq![s]
        } else {
            seq![without_return(s.take(n as int))] + lines_of(s.skip(n as int + 1))
        }
    }
}

/// Whether `needle` stands in `hay` from index `i` on.
pub open spec fn occurs_at(hay: Seq<char>, needle: Seq<char>, i: int) -> bool {
    0 <= i && i + needle.len() <= hay.len() && hay.subrange(i, i + needle.len()) == needle
}

/// Whether `needle` stands somewhere in `hay`.
pub open spec fn occurs_in(hay: Seq<char>, needle: Seq<char>) -> bool {
    exists|i: int| occurs_at(hay, needle, i)
}

/// The views of a vector of character vectors.
pub open spec fn rows(v: Seq<Vec<char>>) -> Seq<Seq<char>> {
    Seq::new(v.len(), |i: int| v[i]@)
}

/// `leading(s, class)` is the one `n` for which the first `n` characters
/// belong to `class` and the next one, if there is one, does not.
pub proof fn lemma_leading(s: Seq<char>, class: CharClass, n: nat)
    requires
        n <= s.len(),
        forall|j: int| 0 <= j < n ==> class.has(#[trigger] s[j]),
        n == s.len() || !class.has(s[n as int]),
    ensures
        leading(s, class) == n,
    decreases n,
{
    if n > 0 {
        let t = s.drop_first();
        assert forall|j: int| 0 <= j < n - 1 implies class.has(#[trigger] t[j]) by {
            assert(t[j] == s[j + 1]);
        }
        lemma_leading(t, class, (n - 1) as nat);
    }
}

/// `trailing(s, class)` is the one `n` for which the last `n` characters
/// belong to `class` and the one before them, if there is one, does not.
pub proof fn lemma_trailing(s: Seq<char>, class: CharClass, n: nat)
    requires
        n <= s.len(),
        forall|j: int| s.len() - n <= j < s.len() ==> class.has(#[trigger] s[j]),
        n == s.len() || !class.has(s[s.len() - n - 1]),
    ensures
        trailing(s, class) == n,
    decreases n,
{
    if n > 0 {
        let t = s.drop_last();
        assert forall|j: int| t.len() - (n - 1) <= j < t.len() implies class.has(
            #[trigger] t[j],
        ) by {
            assert(t[j] == s[j]);
        }
        lemma_trailing(t, class, (n - 1) as nat);
    }
}

/// `first_in(s, class)` is the one `n` for which none of the first `n`
/// characters belongs to `class` and the next one, if there is one, does.
pub proof fn lemma_first_in(s: Seq<char>, class: CharClass, n: nat)
    requires
        n <= s.len(),
        forall|j: int| 0 <= j < n ==> !class.has(#[trigger] s[j]),
        n == s.len() || class.has(s[n as int]),
    ensures
        first_in(s, class) == n,
    decreases n,
{
    if n > 0 {
        let t = s.drop_first();
        assert forall|j: int| 0 <= j < n - 1 implies !class.has(#[trigger] t[j]) by {
            assert(t[j] == s[j + 1]);
        }
        lemma_first_in(t, class, (n - 1) as nat);
    }
}

/// What `leading` counts: a run of characters of `class` that ends at the
/// first other character.
pub proof fn lemma_leading_run(s: Seq<char>, class: CharClass)
    ensures
        leading(s, class) <= s.len(),
        forall|j: int| 0 <= j < leading(s, class) ==> class.has(#[trigger] s[j]),
        leading(s, class) == s.len() || !class.has(s[leading(s, class) as int]),
    decreases s.len(),
{
    if s.len() > 0 && class.has(s[0]) {
        let t = s.drop_first();
        lemma_leading_run(t, class);
        assert forall|j: int| 0 <= j < leading(s, class) implies class.has(#[trigger] s[j]) by {
            if j > 0 {
                assert(s[j] == t[j - 1]);
            }
        }
        if leading(s, class) < s.len() {
            assert(s[leading(s, class) as int] == t[leading(t, class) as int]);
        }
    }
}

/// What `first_in` finds: no character before it belongs to `class`, and the
/// one at it, if there is one, does.
pub proof fn lemma_first_in_run(s: Seq<char>, class: CharClass)
    ensures
        first_in(s, class) <= s.len(),
        forall|j: int| 0 <= j < first_in(s, class) ==> !class.has(#[trigger] s[j]),
        first_in(s, class) == s.len() || class.has(s[first_in(s, class) as int]),
    decreases s.len(),
{
    if s.len() > 0 && !class.has(s[0]) {
        let t = s.drop_first();
        lemma_first_in_run(t, class);
        assert forall|j: int| 0 <= j < first_in(s, class) implies !class.has(#[trigger] s[j]) by {
            if j > 0 {
                assert(s[j] == t[j - 1]);
            }
        }
    }
}

/// A text that ends in a line feed, and a text after it: the lines of the
/// two together are the lines of the first and then the lines of the
/// second.
pub proof fn lemma_lines_concat(a: Seq<char>, b: Seq<char>)
    requires
        a.len() == 0 || a.last() == '\n',
    ensures
        lines_of(a + b) == lines_of(a) + lines_of(b),
    decreases a.len(),
{
    let newline = CharClass::Just('\n');
    if a.len() == 0 {
        assert(a + b =~= b);
        assert(lines_of(a) + lines_of(b) =~= lines_of(b));
    } else {
        let s = a + b;
        let n = first_in(a, newline);
        lemma_first_in_run(a, newline);
        assert(n < a.len()) by {
            if n == a.len() {
                assert(!newline.has(a[a.len() - 1]));
            }
        }
        assert forall|j: int| 0 <= j < n implies !newline.has(#[trigger] s[j]) by {
            assert(s[j] == a[j]);
        }
        assert(s[n as int] == a[n as int]);
        lemma_first_in(s, newline, n);
        let rest = a.skip(n as int + 1);
        assert(s.take(n as int) =~= a.take(n as int));
        assert(s.skip(n as int + 1) =~= rest + b);
        if rest.len() > 0 {
            assert(rest.last() == a.last());
        }
        lemma_lines_concat(rest, b);
        let first = seq![without_return(a.take(n as int))];
        assert(first + (lines_of(rest) + lines_of(b)) =~= (first + lines_of(rest)) + lines_of(b));
    }
}

/// A text whose last line has no ending: a line feed after it adds no
/// line, as long as the text does not end in a carriage return, which the
/// line feed would take into the ending.
pub proof fn lemma_lines_closed(s: Seq<char>)
    requires
        s.len() > 0,
        s.last() != '\n',
        s.last() != '\r',
    ensures
        lines_of(s + "\n"@) == lines_of(s),
    decreases s.len(),
{
    reveal_strlit("\n");
    let newline = CharClass::Just('\n');
    let t = s + "\n"@;
    let n = first_in(s, newline);
    lemma_first_in_run(s, newline);
    assert forall|j: int| 0 <= j < n implies !newline.has(#[trigger] t[j]) by {
        assert(t[j] == s[j]);
    }
    if n == s.len() {
        assert(t[n as int] == '\n');
        lemma_first_in(t, newline, n);
        assert(t.take(n as int) =~= s);
        assert(t.skip(n as int + 1) =~= Seq::<char>::empty());
        assert(lines_of(Seq::<char>::empty()) =~= Seq::<Seq<char>>::empty());
        assert(lines_of(t) =~= seq![s]);
    } else {
        assert(t[n as int] == s[n as int]);
        lemma_first_in(t, newline, n);
        let rest = s.skip(n as int + 1);
        assert(n < s.len() - 1);
        assert(rest.last() == s.last());
        assert(t.take(n as int) =~= s.take(n as int));
        assert(t.skip(n as int + 1) =~= rest + "\n"@);
        lemma_lines_closed(rest);
    }
}

/// The lines of a text that starts with a line and its line feed: the
/// line, without a carriage return at its end, and then the lines of what
/// follows.
pub proof fn lemma_lines_first(line: Seq<char>, rest: Seq<char>)
    requires
        forall|i: int| 0 <= i < line.len() ==> #[trigger] line[i] != '\n',
    ensures
        lines_of(line + "\n"@ + rest) == seq![without_return(line)] + lines_of(rest),
{
    reveal_strlit("\n");
    let newline = CharClass::Just('\n');
    let s = line + "\n"@ + rest;
    let n = line.len();
    assert forall|j: int| 0 <= j < n implies !newline.has(#[trigger] s[j]) by {
        assert(s[j] == line[j]);
    }
    assert(s[n as int] == '\n');
    lemma_first_in(s, newline, n);
    assert(s.take(n as int) =~= line);
    assert(s.skip(n as int + 1) =~= rest);
}

/// Counts the characters at the start of `s` that belong to `class`.
pub fn count_leading(s: &[char], class: CharClass) -> (n: usize)
    ensures
        n == leading(s@, class),
        n <= s.len(),
{
    let mut n: usize = 0;
    while n < s.len() && class.contains(s[n])
        invariant
            n <= s.len(),
            forall|j: int| 0 <= j < n ==> class.has(#[trigger] s@[j]),
        decreases s.len() - n,
    {
        n += 1;
    }
    proof {
        lemma_leading(s@, class, n as nat);
    }
    n
}

/// Counts the characters at the end of `s` that belong to `class`.
pub fn count_trailing(s: &[char], class: CharClass) -> (n: usize)
    ensures
        n == trailing(s@, class),
        n <= s.len(),
{
    let mut n: usize = 0;
    while n < s.len() && class.contains(s[s.len() - n - 1])
        invariant
            n <= s.len(),
            forall|j: int| s.len() - n <= j < s.len() ==> class.has(#[trigger] s@[j]),
        decreases s.len() - n,
    {
        n += 1;
    }
    proof {
        lemma_trailing(s@, class, n as nat);
    }
    n
}

/// Finds the first character of `s` that belongs to `class`.
pub fn find_first(s: &[char], class: CharClass) -> (n: usize)
    ensures
        n == first_in(s@, class),
        n <= s.len(),
{
    let mut n: usize = 0;
    while n < s.len() && !class.contains(s[n])
        invariant
            n <= s.len(),
            forall|j: int| 0 <= j < n ==> !class.has(#[trigger] s@[j]),
        decreases s.len() - n,
    {
        n += 1;
    }
    proof {
        lemma_first_in(s@, class, n as nat);
    }
    n
}

/// The part of `s` that is left when the characters of `class` at its start
/// are taken away.
pub fn skip_start(s: &[char], class: CharClass) -> (r: &[char])
    ensures
        r@ == strip_start(s@, class),
{
    let n = count_leading(s, class);
    let r = slice_subrange(s, n, s.len());
    assert(r@ =~= s@.skip(n as int));
    r
}

/// The part of `s` that is left when the characters of `class` at its end are
/// taken away.
pub fn skip_end(s: &[char], class: CharClass) -> (r: &[char])
    ensures
        r@ == strip_end(s@, class),
{
    let n = count_trailing(s, class);
    let r = slice_subrange(s, 0, s.len() - n);
    assert(r@ =~= s@.take(s@.len() - n));
    r
}

/// The part of `s` between the whitespace at its start and the whitespace at
/// its end.
pub fn trim(s: &[char]) -> (r: &[char])
    ensures
        r@ == trimmed(s@),
{
    skip_end(skip_start(s, CharClass::Whitespace), CharClass::Whitespace)
}

/// Splits `s` into its lines.
pub fn lines(s: &[char]) -> (r: Vec<Vec<char>>)
    ensures
        rows(r@) == lines_of(s@),
{
    let mut r: Vec<Vec<char>> = Vec::new();
    let mut rest: &[char] = s;
    assert(rows(r@) =~= Seq::<Seq<char>>::empty());
    while rest.len() > 0
        invariant
            lines_of(s@) == rows(r@) + lines_of(rest@),
        decreases rest.len(),
    {
        let ghost before = rows(r@);
        let n = find_first(rest, CharClass::Just('\n'));
        if n >= rest.len() {
            r.push(slice_to_vec(rest));
            assert(rows(r@) =~= before + seq![rest@]);
            rest = slice_subrange(rest, 0, 0);
            assert(lines_of(rest@) =~= Seq::<Seq<char>>::empty());
        } else {
            let full = slice_subrange(rest, 0, n);
            assert(full@ =~= rest@.take(n as int));
            let line = if n > 0 && full[n - 1] == '\r' {
                slice_subrange(full, 0, n - 1)
            } else {
                full
            };
            assert(line@ =~= without_return(rest@.take(n as int)));
            r.push(slice_to_vec(line));
            assert(rows(r@) =~= before + seq![line@]);
            let next = slice_subrange(rest, n + 1, rest.len());
            assert(next@ =~= rest@.skip(n + 1));
            rest = next;
        }
    }
    assert(lines_of(rest@) =~= Seq::<Seq<char>>::empty());
    r
}

/// Tests whether `needle` stands in `hay` from index `i` on.
pub fn matches_at(hay: &[char], needle: &[char], i: usize) -> (b: bool)
    ensures
        b == occurs_at(hay@, needle@, i as int),
{
    if needle.len() > hay.len() || i > hay.len() - needle.len() {
        return false;
    }
    let mut k: usize = 0;
    while k < needle.len()
        invariant
            k <= needle.len(),
            i + needle.len() <= hay.len(),
            forall|j: int| 0 <= j < k ==> hay@[i + j] == needle@[j],
        decreases needle.len() - k,
    {
        if hay[i + k] != needle[k] {
            assert(hay@.subrange(i as int, i + needle@.len())[k as int] != needle@[k as int]);
            return false;
        }
        k += 1;
    }
    assert(hay@.subrange(i as int, i + needle@.len()) =~= needle@);
    true
}

/// Tests whether `needle` stands somewhere in `hay`.
pub fn contains(hay: &[char], needle: &[char]) -> (b: bool)
    ensures
        b == occurs_in(hay@, needle@),
{
    if needle.len() > hay.len() {
        return false;
    }
    let last: usize = hay.len() - needle.len();
    let mut i: usize = 0;
    while i < last
        invariant
            i <= last,
            last == hay.len() - needle.len(),
            forall|j: int| 0 <= j < i ==> !occurs_at(hay@, needle@, j),
        decreases last - i,
    {
        if matches_at(hay, needle, i) {
            return true;
        }
        i += 1;
    }
    matches_at(hay, needle, last)
}

/// Tests whether two texts hold the same characters.
pub fn same_text(a: &[char], b: &[char]) -> (r: bool)
    ensures
        r == (a@ == b@),
{
    if a.len() != b.len() {
        return false;
    }
    let r = matches_at(a, b, 0);
    assert(a@.subrange(0, b@.len() as int) =~= a@);
    r
}

/// The characters of `s`.
pub fn chars_of(s: &str) -> (v: Vec<char>)
    ensures
        v@ == s@,
{
    let mut v: Vec<char> = Vec::new();
    for c in it: s.chars()
        invariant
            v@ == it.seq().take(it.index() as int),
    {
        v.push(c);
    }
    v
}

/// `String::push` appends one character to the end of the string.
#[verifier::external_body]
fn push_char(s: &mut String, c: char)
    ensures
        final(s)@ == old(s)@.push(c),
{
    s.push(c)
}

/// The string that holds the characters `chars`.
pub fn string_of(chars: &[char]) -> (s: String)
    ensures
        s@ == chars@,
{
    let mut s = String::new();
    let mut i: usize = 0;
    while i < chars.len()
        invariant
            i <= chars.len(),
            s@ == chars@.take(i as int),
        decreases chars.len() - i,
    {
        push_char(&mut s, chars[i]);
        assert(chars@.take(i + 1) =~= chars@.take(i as int).push(chars@[i as int]));
        i += 1;
    }
    assert(chars@.take(chars@.len() as int) =~= chars@);
    s
}

} // verus!
