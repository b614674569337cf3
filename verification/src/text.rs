//! Text handling for feed bodies and tool output: comment stripping,
//! whitespace trimming, line splitting, substring search, and decimal
//! rendering of numbers for set-management scripts.

use vstd::prelude::*;

verus! {

/// A comment marker: a comment begins at the first `;` or `#` on a line.
pub open spec fn is_marker(c: char) -> bool {
    c == ';' || c == '#'
}

/// The index of the first comment marker, or the line length if none occurs.
pub open spec fn comment_start(s: Seq<char>) -> int
    decreases s.len(),
{
    if s.len() == 0 {
        0
    } else if is_marker(s[0]) {
        0
    } else {
        1 + comment_start(s.skip(1))
    }
}

/// A line's content: everything strictly before the first comment marker,
/// kept verbatim (trailing whitespace from before the marker included).
pub open spec fn strip_comment(s: Seq<char>) -> Seq<char> {
    s.take(comment_start(s))
}

/// An index below which no marker occurs, and which holds a marker or is the
/// length, is the comment start.
pub proof fn lemma_comment_start_at(s: Seq<char>, i: int)
    requires
        0 <= i <= s.len(),
        forall|j: int| 0 <= j < i ==> !is_marker(s[j]),
        i < s.len() ==> is_marker(s[i]),
    ensures
        i == comment_start(s),
    decreases i,
{
    if i == 0 {
    } else {
        assert(!is_marker(s[0]));
        assert forall|j: int| 0 <= j < i - 1 implies !is_marker(s.skip(1)[j]) by {
            assert(s.skip(1)[j] == s[j + 1]);
        }
        if i - 1 < s.skip(1).len() {
            assert(s.skip(1)[i - 1] == s[i]);
        }
        lemma_comment_start_at(s.skip(1), i - 1);
    }
}

/// Comment-stripping keeps exactly the prefix before the first marker: where
/// a marker stands at `i` and none before it, the content is the first `i`
/// characters verbatim.
pub proof fn lemma_strip_comment_prefix(s: Seq<char>, i: int)
    requires
        0 <= i < s.len(),
        is_marker(s[i]),
        forall|j: int| 0 <= j < i ==> !is_marker(s[j]),
    ensures
        strip_comment(s) == s.take(i),
{
    lemma_comment_start_at(s, i);
}

/// What std's `char::is_whitespace` holds of a character; trimming goes by it.
pub uninterp spec fn is_white(c: char) -> bool;

/// Relies on std's `char::is_whitespace`: a property of the character alone.
#[verifier::external_body]
fn white(c: char) -> (r: bool)
    ensures
        r == is_white(c),
{
    c.is_whitespace()
}

/// The sequence with leading whitespace removed.
pub open spec fn trim_start(s: Seq<char>) -> Seq<char>
    decreases s.len(),
{
    if s.len() == 0 {
        s
    } else if is_white(s[0]) {
        trim_start(s.skip(1))
    } else {
        s
    }
}

/// The sequence with trailing whitespace removed.
pub open spec fn trim_end(s: Seq<char>) -> Seq<char>
    decreases s.len(),
{
    if s.len() == 0 {
        s
    } else if is_white(s.last()) {
        trim_end(s.drop_last())
    } else {
        s
    }
}

/// The sequence with whitespace removed from both ends.
pub open spec fn trim(s: Seq<char>) -> Seq<char> {
    trim_end(trim_start(s))
}

fn white_at(s: &str, i: usize) -> (r: bool)
    requires
        i < s@.len(),
    ensures
        r == is_white(s@[i as int]),
{
    white(s.get_char(i))
}

/// Trim whitespace from both ends of a line.
pub fn trim_str(line: &str) -> (r: &str)
    ensures
        r@ == trim(line@),
{
    let len = line.unicode_len();
    let mut a: usize = 0;
    proof {
        assert(line@.skip(0) =~= line@);
    }
    while a < len && white_at(line, a)
        invariant
            a <= len,
            len == line@.len(),
            trim_start(line@) == trim_start(line@.skip(a as int)),
        decreases len - a,
    {
        proof {
            assert(line@.skip(a as int).skip(1) =~= line@.skip(a as int + 1));
        }
        a = a + 1;
    }
    proof {
        if a < len {
            assert(trim_start(line@) == line@.skip(a as int));
        } else {
            assert(line@.skip(a as int) =~= Seq::<char>::empty());
        }
        assert(line@.skip(a as int) =~= line@.subrange(a as int, len as int));
    }
    let mut b: usize = len;
    while b > a && white_at(line, b - 1)
        invariant
            a <= b <= len,
            len == line@.len(),
            trim_end(line@.subrange(a as int, len as int)) == trim_end(
                line@.subrange(a as int, b as int),
            ),
        decreases b,
    {
        proof {
            assert(line@.subrange(a as int, b as int).drop_last() =~= line@.subrange(
                a as int,
                b as int - 1,
            ));
        }
        b = b - 1;
    }
    proof {
        if b > a {
            assert(trim_end(line@.subrange(a as int, b as int)) == line@.subrange(
                a as int,
                b as int,
            ));
        } else {
            assert(line@.subrange(a as int, b as int) =~= Seq::<char>::empty());
        }
    }
    line.substring_char(a, b)
}

/// Splitting into lines: characters accumulate into `cur` until a newline
/// ends the current line; the text after the last newline is a line too, so
/// an empty text has one empty line.
pub open spec fn split_acc(s: Seq<char>, cur: Seq<char>) -> Seq<Seq<char>>
    decreases s.len(),
{
    if s.len() == 0 {
        seq![cur]
    } else if s[0] == '\n' {
        seq![cur] + split_acc(s.skip(1), Seq::empty())
    } else {
        split_acc(s.skip(1), cur.push(s[0]))
    }
}

/// The lines of a text, split at `\n`.
pub open spec fn split_lines(s: Seq<char>) -> Seq<Seq<char>> {
    split_acc(s, Seq::empty())
}

/// The views of a sequence of borrowed strings.
pub open spec fn str_views(v: Seq<&str>) -> Seq<Seq<char>> {
    v.map_values(|t: &str| t@)
}

/// The views of a sequence of owned strings.
pub open spec fn string_views(v: Seq<String>) -> Seq<Seq<char>> {
    v.map_values(|t: String| t@)
}

fn newline_at(s: &str, i: usize) -> (r: bool)
    requires
        i < s@.len(),
    ensures
        r == (s@[i as int] == '\n'),
{
    s.get_char(i) == '\n'
}

/// The lines of a text, as borrowed slices.
pub fn lines_of<'a>(s: &'a str) -> (r: Vec<&'a str>)
    ensures
        str_views(r@) == split_lines(s@),
{
    let len = s.unicode_len();
    let mut out: Vec<&'a str> = Vec::new();
    let mut start: usize = 0;
    let mut i: usize = 0;
    proof {
        assert(s@.skip(0) =~= s@);
        assert(s@.subrange(0, 0) =~= Seq::<char>::empty());
        assert(str_views(out@) =~= Seq::<Seq<char>>::empty());
        assert(str_views(out@) + split_acc(s@, Seq::empty()) =~~= split_acc(s@, Seq::empty()));
    }
    while i < len
        invariant
            start <= i <= len,
            len == s@.len(),
            split_lines(s@) == str_views(out@) + split_acc(
                s@.skip(i as int),
                s@.subrange(start as int, i as int),
            ),
        decreases len - i,
    {
        if newline_at(s, i) {
            let line = s.substring_char(start, i);
            proof {
                let cur = s@.subrange(start as int, i as int);
                assert(s@.skip(i as int)[0] == s@[i as int]);
                assert(s@.skip(i as int).skip(1) =~= s@.skip(i as int + 1));
                assert(split_acc(s@.skip(i as int), cur) == seq![cur] + split_acc(
                    s@.skip(i as int + 1),
                    Seq::empty(),
                ));
                assert(str_views(out@) + (seq![cur] + split_acc(s@.skip(i as int + 1), Seq::empty()))
                    =~~= str_views(out@.push(line)) + split_acc(s@.skip(i as int + 1), Seq::empty()));
                assert(s@.subrange(i as int + 1, i as int + 1) =~= Seq::<char>::empty());
            }
            out.push(line);
            start = i + 1;
        } else {
            proof {
                assert(s@.skip(i as int)[0] == s@[i as int]);
                assert(s@.skip(i as int).skip(1) =~= s@.skip(i as int + 1));
                assert(s@.subrange(start as int, i as int).push(s@[i as int]) =~= s@.subrange(
                    start as int,
                    i as int + 1,
                ));
            }
        }
        i = i + 1;
    }
    let line = s.substring_char(start, len);
    proof {
        let cur = s@.subrange(start as int, len as int);
        assert(s@.skip(len as int) =~= Seq::<char>::empty());
        assert(split_acc(s@.skip(len as int), cur) == seq![cur]);
        assert(str_views(out@) + seq![cur] =~~= str_views(out@.push(line)));
    }
    out.push(line);
    out
}

/// `n` occurs in `h` starting at index `i`.
pub open spec fn contains_at(h: Seq<char>, n: Seq<char>, i: int) -> bool {
    0 <= i && i + n.len() <= h.len() && h.subrange(i, i + n.len()) == n
}

/// `n` occurs somewhere in `h`.
pub open spec fn has_sub(h: Seq<char>, n: Seq<char>) -> bool {
    exists|i: int| contains_at(h, n, i)
}

fn match_at(hay: &str, needle: &str, i: usize, hl: usize, nl: usize) -> (r: bool)
    requires
        hl == hay@.len(),
        nl == needle@.len(),
        i + nl <= hl,
    ensures
        r == contains_at(hay@, needle@, i as int),
{
    let mut j: usize = 0;
    while j < nl
        invariant
            j <= nl,
            hl == hay@.len(),
            nl == needle@.len(),
            i + nl <= hl,
            forall|t: int| 0 <= t < j ==> hay@[i + t] == needle@[t],
        decreases nl - j,
    {
        if hay.get_char(i + j) != needle.get_char(j) {
            proof {
                assert(hay@.subrange(i as int, i as int + nl as int)[j as int] == hay@[i + j]);
            }
            return false;
        }
        j = j + 1;
    }
    proof {
        assert(hay@.subrange(i as int, i as int + nl as int) =~= needle@);
    }
    true
}

/// Whether `needle` occurs as a substring of `hay`.
pub fn contains_sub(hay: &str, needle: &str) -> (r: bool)
    ensures
        r == has_sub(hay@, needle@),
{
    let hl = hay.unicode_len();
    let nl = needle.unicode_len();
    if nl > hl {
        proof {
            assert forall|k: int| !contains_at(hay@, needle@, k) by {
                if contains_at(hay@, needle@, k) {
                    assert(k + needle@.len() <= hay@.len());
                }
            }
        }
        return false;
    }
    if nl == 0 {
        proof {
            assert(hay@.subrange(0, 0) =~= needle@);
            assert(contains_at(hay@, needle@, 0));
        }
        return true;
    }
    let mut i: usize = 0;
    while i <= hl - nl
        invariant
            hl == hay@.len(),
            nl == needle@.len(),
            0 < nl <= hl,
            i <= hl - nl + 1,
            forall|k: int| 0 <= k < i ==> !contains_at(hay@, needle@, k),
        decreases hl - i,
    {
        if match_at(hay, needle, i, hl, nl) {
            return true;
        }
        i = i + 1;
    }
    proof {
        assert forall|k: int| !contains_at(hay@, needle@, k) by {
            if contains_at(hay@, needle@, k) {
                assert(0 <= k < i);
            }
        }
    }
    false
}

/// Whether two strings hold the same characters.
pub fn str_eq(a: &str, b: &str) -> (r: bool)
    ensures
        r == (a@ == b@),
{
    let al = a.unicode_len();
    let bl = b.unicode_len();
    if al != bl {
        return false;
    }
    let mut i: usize = 0;
    while i < al
        invariant
            i <= al,
            al == a@.len(),
            al == b@.len(),
            forall|t: int| 0 <= t < i ==> a@[t] == b@[t],
        decreases al - i,
    {
        if a.get_char(i) != b.get_char(i) {
            return false;
        }
        i = i + 1;
    }
    proof {
        assert(a@ =~= b@);
    }
    true
}

/// The digit character for a value below ten.
pub open spec fn digit_char(d: int) -> char {
    if d == 0 {
        '0'
    } else if d == 1 {
        '1'
    } else if d == 2 {
        '2'
    } else if d == 3 {
        '3'
    } else if d == 4 {
        '4'
    } else if d == 5 {
        '5'
    } else if d == 6 {
        '6'
    } else if d == 7 {
        '7'
    } else if d == 8 {
        '8'
    } else {
        '9'
    }
}

/// The decimal rendering of a number, most significant digit first.
pub open spec fn dec(n: nat) -> Seq<char>
    decreases n,
{
    if n < 10 {
        seq![digit_char(n as int)]
    } else {
        dec(n / 10).push(digit_char((n % 10) as int))
    }
}

fn digit_str(d: u64) -> (r: &'static str)
    requires
        d < 10,
    ensures
        r@ == seq![digit_char(d as int)],
{
    proof {
        reveal_strlit("0");
        reveal_strlit("1");
        reveal_strlit("2");
        reveal_strlit("3");
        reveal_strlit("4");
        reveal_strlit("5");
        reveal_strlit("6");
        reveal_strlit("7");
        reveal_strlit("8");
        reveal_strlit("9");
    }
    let r = match d {
        0 => "0",
        1 => "1",
        2 => "2",
        3 => "3",
        4 => "4",
        5 => "5",
        6 => "6",
        7 => "7",
        8 => "8",
        _ => "9",
    };
    proof {
        assert(r@ =~= seq![digit_char(d as int)]);
    }
    r
}

/// Append the decimal rendering of `n`.
pub fn append_dec(out: &mut String, n: u64)
    ensures
        final(out)@ == old(out)@ + dec(n as nat),
    decreases n,
{
    if n >= 10 {
        append_dec(out, n / 10);
        let d = digit_str(n % 10);
        out.append(d);
        proof {
            assert((n / 10) as nat == n as nat / 10);
            assert((n % 10) as nat == n as nat % 10);
            assert(dec(n as nat) =~= dec(n as nat / 10) + seq![digit_char((n % 10) as int)]);
        }
    } else {
        let d = digit_str(n);
        out.append(d);
    }
}

} // verus!
