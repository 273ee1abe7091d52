use vstd::prelude::*;

verus! {

/// A character counts as whitespace when it is a space, tab,
/// carriage return or line feed.
pub open spec fn is_ws(c: char) -> bool {
    c == ' ' || c == '\t' || c == '\r' || c == '\n'
}

/// Whether `c` is whitespace, in executable code.
pub fn ws_char(c: char) -> (r: bool)
    ensures
        r == is_ws(c),
{
    c == ' ' || c == '\t' || c == '\r' || c == '\n'
}

/// A character that may appear in an identifier: an ASCII letter,
/// a digit, or an underscore.
pub open spec fn is_ident_char(c: char) -> bool {
    (97 <= c as u32 && c as u32 <= 122)  // 'a'..='z'
    || (65 <= c as u32 && c as u32 <= 90)  // 'A'..='Z'
    || (48 <= c as u32 && c as u32 <= 57)  // '0'..='9'
    || c == '_'
}

/// Whether `c` may appear in an identifier, in executable code.
pub fn ident_char(c: char) -> (r: bool)
    ensures
        r == is_ident_char(c),
{
    let u = c as u32;
    (97 <= u && u <= 122) || (65 <= u && u <= 90) || (48 <= u && u <= 57) || c == '_'
}

/// `s` with its leading whitespace removed.
pub open spec fn drop_leading(s: Seq<char>) -> Seq<char>
    decreases s.len(),
{
    if s.len() > 0 && is_ws(s[0]) {
        drop_leading(s.drop_first())
    } else {
        s
    }
}

/// `s` with its trailing whitespace removed.
pub open spec fn drop_trailing(s: Seq<char>) -> Seq<char>
    decreases s.len(),
{
    if s.len() > 0 && is_ws(s.last()) {
        drop_trailing(s.drop_last())
    } else {
        s
    }
}

/// The canonical form of a source line: the line with surrounding
/// whitespace removed. This is the unit of comparison between test
/// bodies and logic bodies.
pub open spec fn norm_spec(s: Seq<char>) -> Seq<char> {
    drop_trailing(drop_leading(s))
}

proof fn lemma_drop_leading_is_suffix(s: Seq<char>, i: int)
    requires
        0 <= i <= s.len(),
        forall|k: int| 0 <= k < i ==> is_ws(s[k]),
        i == s.len() || !is_ws(s[i]),
    ensures
        drop_leading(s) == s.subrange(i, s.len() as int),
    decreases i,
{
    if i == 0 {
        assert(s.subrange(0, s.len() as int) =~= s);
        if s.len() > 0 {
            assert(!is_ws(s[0]));
        }
    } else {
        let t = s.drop_first();
        assert(is_ws(s[0]));
        assert(forall|k: int| 0 <= k < i - 1 ==> is_ws(t[k]));
        lemma_drop_leading_is_suffix(t, i - 1);
        assert(t.subrange(i - 1, t.len() as int) =~= s.subrange(i, s.len() as int));
    }
}

proof fn lemma_drop_trailing_is_prefix(s: Seq<char>, j: int)
    requires
        0 <= j <= s.len(),
        forall|k: int| j <= k < s.len() ==> is_ws(s[k]),
        j == 0 || !is_ws(s[j - 1]),
    ensures
        drop_trailing(s) == s.subrange(0, j),
    decreases s.len(),
{
    if j == s.len() {
        assert(s.subrange(0, j) =~= s);
        if s.len() > 0 {
            assert(!is_ws(s.last()));
        }
    } else {
        assert(is_ws(s.last()));
        let t = s.drop_last();
        assert(forall|k: int| j <= k < t.len() ==> is_ws(t[k]));
        lemma_drop_trailing_is_prefix(t, j);
        assert(t.subrange(0, j) =~= s.subrange(0, j));
    }
}

proof fn lemma_drop_leading_head(s: Seq<char>)
    ensures
        drop_leading(s).len() == 0 || !is_ws(drop_leading(s)[0]),
    decreases s.len(),
{
    if s.len() > 0 && is_ws(s[0]) {
        lemma_drop_leading_head(s.drop_first());
    }
}

proof fn lemma_drop_trailing_last(s: Seq<char>)
    ensures
        drop_trailing(s).len() == 0 || !is_ws(drop_trailing(s).last()),
    decreases s.len(),
{
    if s.len() > 0 && is_ws(s.last()) {
        lemma_drop_trailing_last(s.drop_last());
    }
}

proof fn lemma_drop_trailing_keeps_head(s: Seq<char>)
    requires
        s.len() == 0 || !is_ws(s[0]),
    ensures
        drop_trailing(s).len() == 0 || !is_ws(drop_trailing(s)[0]),
    decreases s.len(),
{
    if s.len() > 0 && is_ws(s.last()) {
        let t = s.drop_last();
        if t.len() > 0 {
            assert(t[0] == s[0]);
        }
        lemma_drop_trailing_keeps_head(t);
    }
}

/// Normalization changes nothing on a line that already has no
/// surrounding whitespace.
proof fn lemma_norm_fixed(s: Seq<char>)
    requires
        s.len() == 0 || (!is_ws(s[0]) && !is_ws(s.last())),
    ensures
        norm_spec(s) == s,
{
    assert(drop_leading(s) == s);
    assert(drop_trailing(s) == s);
}

/// Normalization is idempotent: normalizing an already normalized
/// line gives it back unchanged.
pub proof fn lemma_normalize_idempotent(s: Seq<char>)
    ensures
        norm_spec(norm_spec(s)) == norm_spec(s),
{
    let n = norm_spec(s);
    lemma_drop_leading_head(s);
    lemma_drop_trailing_keeps_head(drop_leading(s));
    lemma_drop_trailing_last(drop_leading(s));
    lemma_norm_fixed(n);
}

/// Canonicalizes one raw source line: strips the whitespace around it.
/// Total over all inputs; an all-whitespace line becomes empty.
pub fn normalize_line(line: &str) -> (r: String)
    ensures
        r@ == norm_spec(line@),
{
    let len = line.unicode_len();
    let mut start: usize = 0;
    while start < len && ws_char(line.get_char(start))
        invariant
            len == line@.len(),
            0 <= start <= len,
            forall|k: int| 0 <= k < start ==> is_ws(line@[k]),
        decreases len - start,
    {
        start = start + 1;
    }
    let mut end: usize = len;
    while end > start && ws_char(line.get_char(end - 1))
        invariant
            len == line@.len(),
            0 <= start <= end <= len,
            forall|k: int| end <= k < len ==> is_ws(line@[k]),
        decreases end,
    {
        end = end - 1;
    }
    proof {
        lemma_drop_leading_is_suffix(line@, start as int);
        let mid = line@.subrange(start as int, len as int);
        assert(forall|k: int| (end - start) <= k < mid.len() ==> is_ws(mid[k]));
        if end > start {
            assert(mid[end - start - 1] == line@[end - 1]);
        }
        lemma_drop_trailing_is_prefix(mid, end - start);
        assert(mid.subrange(0, end - start) =~= line@.subrange(start as int, end as int));
    }
    let sub = line.substring_char(start, end);
    sub.to_owned()
}

/// The first position at or after `i` where `c` occurs in `s`.
pub open spec fn find_char_from(s: Seq<char>, c: char, i: int) -> Option<int>
    decreases s.len() - i,
{
    if i < 0 || i >= s.len() {
        Option::None
    } else if s[i] == c {
        Option::Some(i)
    } else {
        find_char_from(s, c, i + 1)
    }
}

/// The first position where `c` occurs in `s`.
pub open spec fn find_char(s: Seq<char>, c: char) -> Option<int> {
    find_char_from(s, c, 0)
}

/// Finds the first occurrence of the character `c` in `s`.
pub fn find_char_str(s: &str, c: char) -> (r: Option<usize>)
    ensures
        match r {
            Option::Some(i) => find_char(s@, c) == Option::Some(i as int),
            Option::None => find_char(s@, c) is None,
        },
{
    let len = s.unicode_len();
    let mut i: usize = 0;
    while i < len
        invariant
            len == s@.len(),
            0 <= i <= len,
            find_char(s@, c) == find_char_from(s@, c, i as int),
        decreases len - i,
    {
        if s.get_char(i) == c {
            return Option::Some(i);
        }
        i = i + 1;
    }
    Option::None
}

/// Whether `c` occurs anywhere in `s`.
pub fn contains_char(s: &str, c: char) -> (r: bool)
    ensures
        r == (find_char(s@, c) is Some),
{
    match find_char_str(s, c) {
        Option::Some(_) => true,
        Option::None => false,
    }
}

/// Whether the pattern `p` stands in `s` at position `i`.
pub open spec fn match_at(s: Seq<char>, p: Seq<char>, i: int) -> bool {
    0 <= i && i + p.len() <= s.len() && s.subrange(i, i + p.len()) == p
}

/// The first position at or after `i` where the non-empty pattern `p`
/// stands in `s`.
pub open spec fn find_sub_from(s: Seq<char>, p: Seq<char>, i: int) -> Option<int>
    decreases s.len() - i,
{
    if p.len() == 0 || i < 0 || i + p.len() > s.len() {
        Option::None
    } else if match_at(s, p, i) {
        Option::Some(i)
    } else {
        find_sub_from(s, p, i + 1)
    }
}

/// The first position where the non-empty pattern `p` stands in `s`.
pub open spec fn find_sub(s: Seq<char>, p: Seq<char>) -> Option<int> {
    find_sub_from(s, p, 0)
}

/// Finds the first occurrence of the pattern `p` inside `s`.
pub fn find_sub_str(s: &str, p: &str) -> (r: Option<usize>)
    ensures
        match r {
            Option::Some(i) => find_sub(s@, p@) == Option::Some(i as int),
            Option::None => find_sub(s@, p@) is None,
        },
{
    let slen = s.unicode_len();
    let plen = p.unicode_len();
    if plen == 0 || plen > slen {
        return Option::None;
    }
    let mut i: usize = 0;
    while i <= slen - plen
        invariant
            slen == s@.len(),
            plen == p@.len(),
            0 < plen <= slen,
            0 <= i,
            i <= slen - plen + 1,
            find_sub(s@, p@) == find_sub_from(s@, p@, i as int),
        decreases slen - i,
    {
        let mut j: usize = 0;
        let mut same = true;
        while j < plen
            invariant
                slen == s@.len(),
                plen == p@.len(),
                0 <= i,
                i + plen <= slen,
                0 <= j <= plen,
                same ==> forall|k: int| 0 <= k < j ==> s@[i + k] == p@[k],
                !same ==> !match_at(s@, p@, i as int),
            decreases plen - j,
        {
            if s.get_char(i + j) != p.get_char(j) {
                proof {
                    if match_at(s@, p@, i as int) {
                        assert(s@.subrange(i as int, i + plen)[j as int] == s@[i + j]);
                    }
                }
                same = false;
            }
            j = j + 1;
        }
        if same {
            proof {
                assert(s@.subrange(i as int, i + plen) =~= p@);
            }
            return Option::Some(i);
        }
        i = i + 1;
    }
    Option::None
}

/// The end of the identifier run that starts at `i`: the first
/// position at or after `i` whose character is no identifier
/// character.
pub open spec fn ident_end(s: Seq<char>, i: int) -> int
    decreases s.len() - i,
{
    if 0 <= i < s.len() && is_ident_char(s[i]) {
        ident_end(s, i + 1)
    } else {
        i
    }
}

/// The start of the identifier run that ends just before `i`: the
/// least position from which every character up to `i` is an
/// identifier character.
pub open spec fn ident_start(s: Seq<char>, i: int) -> int
    decreases i,
{
    if 0 < i <= s.len() && is_ident_char(s[i - 1]) {
        ident_start(s, i - 1)
    } else {
        i
    }
}

/// Walks forward from `i` over identifier characters.
pub fn ident_end_str(s: &str, i: usize) -> (r: usize)
    requires
        i <= s@.len(),
    ensures
        r == ident_end(s@, i as int),
        i <= r <= s@.len(),
{
    let len = s.unicode_len();
    let mut j: usize = i;
    while j < len && ident_char(s.get_char(j))
        invariant
            len == s@.len(),
            i <= j <= len,
            ident_end(s@, i as int) == ident_end(s@, j as int),
        decreases len - j,
    {
        j = j + 1;
    }
    j
}

/// Walks backward from `i` over identifier characters.
pub fn ident_start_str(s: &str, i: usize) -> (r: usize)
    requires
        i <= s@.len(),
    ensures
        r == ident_start(s@, i as int),
        r <= i,
{
    let mut j: usize = i;
    while j > 0 && ident_char(s.get_char(j - 1))
        invariant
            i <= s@.len(),
            0 <= j <= i,
            ident_start(s@, i as int) == ident_start(s@, j as int),
        decreases j,
    {
        j = j - 1;
    }
    j
}

} // verus!
