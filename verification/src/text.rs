//! Character-level text operations shared by the parser: trimming,
//! splitting on a separator, whitespace tokenization, and the search for a
//! space-delimited redirection marker. Each operation is defined once as a
//! mathematical function over `Seq<char>` and implemented once as a verified
//! executable function over `&str`.

use vstd::prelude::*;

verus! {

/// The whitespace characters recognized between tokens and at line ends.
pub open spec fn is_space(c: char) -> bool {
    c == ' ' || c == '\t' || c == '\n' || c == '\r'
}

/// Executable twin of [`is_space`].
pub fn space_char(c: char) -> (r: bool)
    ensures
        r == is_space(c),
{
    c == ' ' || c == '\t' || c == '\n' || c == '\r'
}

/// The sequence with all leading whitespace removed.
pub open spec fn trim_front(s: Seq<char>) -> Seq<char>
    decreases s.len(),
{
    if s.len() > 0 && is_space(s[0]) {
        trim_front(s.drop_first())
    } else {
        s
    }
}

/// The sequence with all trailing whitespace removed.
pub open spec fn trim_back(s: Seq<char>) -> Seq<char>
    decreases s.len(),
{
    if s.len() > 0 && is_space(s.last()) {
        trim_back(s.drop_last())
    } else {
        s
    }
}

/// The sequence with whitespace removed from both ends.
pub open spec fn trim(s: Seq<char>) -> Seq<char> {
    trim_back(trim_front(s))
}

/// The sequence with every trailing occurrence of `c` removed.
pub open spec fn strip_trailing(s: Seq<char>, c: char) -> Seq<char>
    decreases s.len(),
{
    if s.len() > 0 && s.last() == c {
        strip_trailing(s.drop_last(), c)
    } else {
        s
    }
}

/// `trim_front(s)` is the suffix of `s` that starts at its first non-space
/// character; everything before that suffix is whitespace.
pub proof fn lemma_trim_front_props(s: Seq<char>)
    ensures
        trim_front(s).len() <= s.len(),
        trim_front(s) == s.subrange(s.len() - trim_front(s).len(), s.len() as int),
        trim_front(s).len() > 0 ==> !is_space(trim_front(s)[0]),
        forall|j: int| 0 <= j < s.len() - trim_front(s).len() ==> is_space(s[j]),
    decreases s.len(),
{
    if s.len() > 0 && is_space(s[0]) {
        lemma_trim_front_props(s.drop_first());
        assert(s.drop_first().subrange(
            s.drop_first().len() - trim_front(s).len(),
            s.drop_first().len() as int,
        ) =~= s.subrange(s.len() - trim_front(s).len(), s.len() as int));
        assert forall|j: int| 0 <= j < s.len() - trim_front(s).len() implies is_space(s[j]) by {
            if j > 0 {
                assert(s.drop_first()[j - 1] == s[j]);
            }
        }
    } else {
        assert(s.subrange(0, s.len() as int) =~= s);
    }
}

/// `trim_back(s)` is the prefix of `s` that ends at its last non-space
/// character; everything after that prefix is whitespace.
pub proof fn lemma_trim_back_props(s: Seq<char>)
    ensures
        trim_back(s).len() <= s.len(),
        trim_back(s) == s.subrange(0, trim_back(s).len() as int),
        trim_back(s).len() > 0 ==> !is_space(trim_back(s).last()),
        forall|j: int| trim_back(s).len() <= j < s.len() ==> is_space(s[j]),
    decreases s.len(),
{
    if s.len() > 0 && is_space(s.last()) {
        lemma_trim_back_props(s.drop_last());
        assert(s.drop_last().subrange(0, trim_back(s).len() as int) =~= s.subrange(
            0,
            trim_back(s).len() as int,
        ));
        assert forall|j: int| trim_back(s).len() <= j < s.len() implies is_space(s[j]) by {
            if j < s.len() - 1 {
                assert(s.drop_last()[j] == s[j]);
            } else {
                assert(s[j] == s.last());
            }
        }
    } else {
        assert(s.subrange(0, s.len() as int) =~= s);
    }
}

/// `strip_trailing(s, c)` is the prefix of `s` that ends at the last
/// character different from `c`; everything after that prefix equals `c`.
pub proof fn lemma_strip_trailing_props(s: Seq<char>, c: char)
    ensures
        strip_trailing(s, c).len() <= s.len(),
        strip_trailing(s, c) == s.subrange(0, strip_trailing(s, c).len() as int),
        strip_trailing(s, c).len() > 0 ==> strip_trailing(s, c).last() != c,
        forall|j: int| strip_trailing(s, c).len() <= j < s.len() ==> s[j] == c,
    decreases s.len(),
{
    if s.len() > 0 && s.last() == c {
        lemma_strip_trailing_props(s.drop_last(), c);
        assert(s.drop_last().subrange(0, strip_trailing(s, c).len() as int) =~= s.subrange(
            0,
            strip_trailing(s, c).len() as int,
        ));
        assert forall|j: int| strip_trailing(s, c).len() <= j < s.len() implies s[j] == c by {
            if j < s.len() - 1 {
                assert(s.drop_last()[j] == s[j]);
            } else {
                assert(s[j] == s.last());
            }
        }
    } else {
        assert(s.subrange(0, s.len() as int) =~= s);
    }
}

/// A trimmed sequence begins and ends with non-space characters, and
/// trimming it again changes nothing.
pub proof fn lemma_trim_props(s: Seq<char>)
    ensures
        trim(s).len() <= s.len(),
        trim(s).len() > 0 ==> !is_space(trim(s)[0]),
        trim(s).len() > 0 ==> !is_space(trim(s).last()),
        trim(trim(s)) == trim(s),
{
    lemma_trim_front_props(s);
    lemma_trim_back_props(trim_front(s));
    if trim(s).len() > 0 {
        assert(trim(s)[0] == trim_front(s)[0]);
        assert(trim_front(trim(s)) == trim(s));
        assert(trim_back(trim(s)) == trim(s));
    } else {
        assert(trim_front(trim(s)) == trim(s));
        assert(trim_back(trim(s)) == trim(s));
    }
}

/// The fragments of `s` between occurrences of the separator `c`, the
/// fragment accumulated so far being `cur`. Every occurrence separates; empty
/// fragments are kept.
pub open spec fn split_acc(s: Seq<char>, c: char, cur: Seq<char>) -> Seq<Seq<char>>
    decreases s.len(),
{
    if s.len() == 0 {
        seq![cur]
    } else if s[0] == c {
        seq![cur] + split_acc(s.drop_first(), c, Seq::empty())
    } else {
        split_acc(s.drop_first(), c, cur.push(s[0]))
    }
}

/// The fragments of `s` between occurrences of the separator `c`.
pub open spec fn split_char(s: Seq<char>, c: char) -> Seq<Seq<char>> {
    split_acc(s, c, Seq::empty())
}

/// Splitting yields at least one fragment.
pub proof fn lemma_split_acc_len(s: Seq<char>, c: char, cur: Seq<char>)
    ensures
        split_acc(s, c, cur).len() >= 1,
    decreases s.len(),
{
    if s.len() == 0 {
    } else if s[0] == c {
        lemma_split_acc_len(s.drop_first(), c, Seq::empty());
    } else {
        lemma_split_acc_len(s.drop_first(), c, cur.push(s[0]));
    }
}

/// The maximal runs of non-space characters in `s`, the run accumulated so
/// far being `cur`; an empty accumulated run is not a token.
pub open spec fn tokens_acc(s: Seq<char>, cur: Seq<char>) -> Seq<Seq<char>>
    decreases s.len(),
{
    let flushed: Seq<Seq<char>> = if cur.len() == 0 {
        seq![]
    } else {
        seq![cur]
    };
    if s.len() == 0 {
        flushed
    } else if is_space(s[0]) {
        flushed + tokens_acc(s.drop_first(), Seq::empty())
    } else {
        tokens_acc(s.drop_first(), cur.push(s[0]))
    }
}

/// The whitespace-separated tokens of `s`.
pub open spec fn tokens(s: Seq<char>) -> Seq<Seq<char>> {
    tokens_acc(s, Seq::empty())
}

/// Every token is non-empty.
pub proof fn lemma_tokens_acc_nonempty(s: Seq<char>, cur: Seq<char>)
    ensures
        forall|i: int| 0 <= i < tokens_acc(s, cur).len() ==> tokens_acc(s, cur)[i].len() > 0,
    decreases s.len(),
{
    let flushed: Seq<Seq<char>> = if cur.len() == 0 {
        seq![]
    } else {
        seq![cur]
    };
    if s.len() == 0 {
        assert forall|i: int| 0 <= i < tokens_acc(s, cur).len() implies tokens_acc(s, cur)[i].len()
            > 0 by {
            assert(tokens_acc(s, cur)[i] == cur);
        }
    } else if is_space(s[0]) {
        lemma_tokens_acc_nonempty(s.drop_first(), Seq::empty());
        let rec = tokens_acc(s.drop_first(), Seq::empty());
        assert forall|i: int| 0 <= i < tokens_acc(s, cur).len() implies tokens_acc(s, cur)[i].len()
            > 0 by {
            if i < flushed.len() {
                assert(tokens_acc(s, cur)[i] == cur);
            } else {
                assert(tokens_acc(s, cur)[i] == rec[i - flushed.len()]);
            }
        }
    } else {
        lemma_tokens_acc_nonempty(s.drop_first(), cur.push(s[0]));
        assert(tokens_acc(s, cur) == tokens_acc(s.drop_first(), cur.push(s[0])));
    }
}

/// The position of the first occurrence in `s` of the three-character
/// redirection marker `' '`, `mid`, `' '`, if there is one.
pub open spec fn find_marker(s: Seq<char>, mid: char) -> Option<int>
    decreases s.len(),
{
    if s.len() < 3 {
        None
    } else if s[0] == ' ' && s[1] == mid && s[2] == ' ' {
        Some(0)
    } else {
        match find_marker(s.drop_first(), mid) {
            None => None,
            Some(i) => Some(i + 1),
        }
    }
}

/// Where `find_marker` reports a position, the marker stands there and
/// `mid` is the character between the two spaces.
pub proof fn lemma_find_marker_at(s: Seq<char>, mid: char)
    ensures
        match find_marker(s, mid) {
            Some(i) => 0 <= i && i + 3 <= s.len() && s[i] == ' ' && s[i + 1] == mid && s[i + 2]
                == ' ',
            None => true,
        },
    decreases s.len(),
{
    if s.len() >= 3 && !(s[0] == ' ' && s[1] == mid && s[2] == ' ') {
        lemma_find_marker_at(s.drop_first(), mid);
    }
}

/// The trimmed form of `s`, as a borrowed substring.
pub fn trim_str(s: &str) -> (r: &str)
    ensures
        r@ == trim(s@),
{
    let n: usize = s.unicode_len();
    let mut lo: usize = 0;
    proof {
        assert(s@.subrange(0, n as int) =~= s@);
    }
    while lo < n && space_char(s.get_char(lo))
        invariant
            0 <= lo <= n,
            n == s@.len(),
            trim_front(s@) == trim_front(s@.subrange(lo as int, n as int)),
        decreases n - lo,
    {
        proof {
            let rest = s@.subrange(lo as int, n as int);
            assert(rest.drop_first() =~= s@.subrange(lo as int + 1, n as int));
        }
        lo = lo + 1;
    }
    proof {
        let rest = s@.subrange(lo as int, n as int);
        assert(trim_front(rest) == rest);
    }
    let mut hi: usize = n;
    while hi > lo && space_char(s.get_char(hi - 1))
        invariant
            lo <= hi <= n,
            n == s@.len(),
            trim_front(s@) == s@.subrange(lo as int, n as int),
            trim_back(s@.subrange(lo as int, n as int)) == trim_back(
                s@.subrange(lo as int, hi as int),
            ),
        decreases hi,
    {
        proof {
            let part = s@.subrange(lo as int, hi as int);
            assert(part.drop_last() =~= s@.subrange(lo as int, hi as int - 1));
        }
        hi = hi - 1;
    }
    proof {
        let part = s@.subrange(lo as int, hi as int);
        assert(trim_back(part) == part);
    }
    s.substring_char(lo, hi)
}

/// The position of the first `' '`, `mid`, `' '` marker in `s`, if any.
pub fn find_marker_str(s: &str, mid: char) -> (r: Option<usize>)
    ensures
        match r {
            Some(i) => find_marker(s@, mid) == Some(i as int),
            None => find_marker(s@, mid) is None,
        },
{
    let n: usize = s.unicode_len();
    let mut i: usize = 0;
    proof {
        assert(s@.subrange(0, n as int) =~= s@);
        lemma_find_marker_at(s@, mid);
    }
    loop
        invariant
            0 <= i <= n,
            n == s@.len(),
            match find_marker(s@, mid) {
                Some(k) => find_marker(s@.subrange(i as int, n as int), mid) == Some(k - i) && k
                    >= i,
                None => find_marker(s@.subrange(i as int, n as int), mid) is None,
            },
        decreases n - i,
    {
        if n - i < 3 {
            proof {
                assert(s@.subrange(i as int, n as int).len() < 3);
            }
            return None;
        }
        let hit = s.get_char(i) == ' ' && s.get_char(i + 1) == mid && s.get_char(i + 2) == ' ';
        proof {
            let rest = s@.subrange(i as int, n as int);
            assert(rest[0] == s@[i as int] && rest[1] == s@[i as int + 1] && rest[2] == s@[i as int
                + 2]);
            if !hit {
                assert(rest.drop_first() =~= s@.subrange(i as int + 1, n as int));
                lemma_find_marker_at(rest.drop_first(), mid);
            }
        }
        if hit {
            return Some(i);
        }
        i = i + 1;
    }
}

/// The fragments of `s` between occurrences of the separator `c`, as
/// borrowed substrings.
pub fn split_str(s: &str, c: char) -> (r: Vec<&str>)
    ensures
        r.deep_view() == split_char(s@, c),
        r.len() >= 1,
{
    let n: usize = s.unicode_len();
    let mut parts: Vec<&str> = Vec::new();
    let mut start: usize = 0;
    let mut i: usize = 0;
    proof {
        assert(s@.subrange(0, n as int) =~= s@);
        assert(s@.subrange(0, 0) =~= Seq::<char>::empty());
        assert(parts.deep_view() + split_acc(s@, c, Seq::empty()) =~= split_acc(
            s@,
            c,
            Seq::empty(),
        ));
    }
    while i < n
        invariant
            0 <= start <= i <= n,
            n == s@.len(),
            split_char(s@, c) == parts.deep_view() + split_acc(
                s@.subrange(i as int, n as int),
                c,
                s@.subrange(start as int, i as int),
            ),
        decreases n - i,
    {
        let ghost rest = s@.subrange(i as int, n as int);
        let ghost cur = s@.subrange(start as int, i as int);
        proof {
            assert(rest[0] == s@[i as int]);
            assert(rest.drop_first() =~= s@.subrange(i as int + 1, n as int));
        }
        if s.get_char(i) == c {
            let frag = s.substring_char(start, i);
            let ghost old_dv = parts.deep_view();
            parts.push(frag);
            proof {
                assert(parts.deep_view() =~= old_dv.push(cur));
                assert(old_dv + split_acc(rest, c, cur) =~= parts.deep_view() + split_acc(
                    rest.drop_first(),
                    c,
                    Seq::empty(),
                ));
                assert(s@.subrange(i as int + 1, i as int + 1) =~= Seq::<char>::empty());
            }
            start = i + 1;
        } else {
            proof {
                assert(cur.push(s@[i as int]) =~= s@.subrange(start as int, i as int + 1));
            }
        }
        i = i + 1;
    }
    let frag = s.substring_char(start, n);
    let ghost old_dv = parts.deep_view();
    let ghost cur = s@.subrange(start as int, n as int);
    parts.push(frag);
    proof {
        assert(s@.subrange(n as int, n as int).len() == 0);
        assert(split_acc(s@.subrange(n as int, n as int), c, cur) == seq![cur]);
        assert(parts.deep_view() =~= old_dv.push(cur));
        assert(old_dv + seq![cur] =~= parts.deep_view());
    }
    parts
}

/// The whitespace-separated tokens of `s`, as owned strings.
pub fn tokenize(s: &str) -> (r: Vec<String>)
    ensures
        r.deep_view() == tokens(s@),
{
    let n: usize = s.unicode_len();
    let mut toks: Vec<String> = Vec::new();
    let mut start: usize = 0;
    let mut i: usize = 0;
    proof {
        assert(s@.subrange(0, n as int) =~= s@);
        assert(s@.subrange(0, 0) =~= Seq::<char>::empty());
        assert(toks.deep_view() + tokens_acc(s@, Seq::empty()) =~= tokens_acc(s@, Seq::empty()));
    }
    while i < n
        invariant
            0 <= start <= i <= n,
            n == s@.len(),
            tokens(s@) == toks.deep_view() + tokens_acc(
                s@.subrange(i as int, n as int),
                s@.subrange(start as int, i as int),
            ),
        decreases n - i,
    {
        let ghost rest = s@.subrange(i as int, n as int);
        let ghost cur = s@.subrange(start as int, i as int);
        proof {
            assert(rest[0] == s@[i as int]);
            assert(rest.drop_first() =~= s@.subrange(i as int + 1, n as int));
        }
        if space_char(s.get_char(i)) {
            if start < i {
                let tok = String::from_str(s.substring_char(start, i));
                let ghost old_dv = toks.deep_view();
                toks.push(tok);
                proof {
                    assert(toks.deep_view() =~= old_dv.push(cur));
                    assert(old_dv + tokens_acc(rest, cur) =~= toks.deep_view() + tokens_acc(
                        rest.drop_first(),
                        Seq::empty(),
                    ));
                    assert(s@.subrange(i as int + 1, i as int + 1) =~= Seq::<char>::empty());
                }
            } else {
                proof {
                    assert(cur.len() == 0);
                    assert(toks.deep_view() + tokens_acc(rest, cur) =~= toks.deep_view()
                        + tokens_acc(rest.drop_first(), Seq::empty()));
                    assert(s@.subrange(i as int + 1, i as int + 1) =~= Seq::<char>::empty());
                }
            }
            start = i + 1;
        } else {
            proof {
                assert(cur.push(s@[i as int]) =~= s@.subrange(start as int, i as int + 1));
            }
        }
        i = i + 1;
    }
    let ghost cur = s@.subrange(start as int, n as int);
    proof {
        assert(s@.subrange(n as int, n as int).len() == 0);
    }
    if start < n {
        let tok = String::from_str(s.substring_char(start, n));
        let ghost old_dv = toks.deep_view();
        toks.push(tok);
        proof {
            assert(tokens_acc(s@.subrange(n as int, n as int), cur) == seq![cur]);
            assert(toks.deep_view() =~= old_dv.push(cur));
            assert(old_dv + seq![cur] =~= toks.deep_view());
        }
    } else {
        proof {
            assert(cur.len() == 0);
            assert(tokens_acc(s@.subrange(n as int, n as int), cur) =~= Seq::<Seq<char>>::empty());
            assert(toks.deep_view() + Seq::<Seq<char>>::empty() =~= toks.deep_view());
        }
    }
    toks
}

} // verus!
