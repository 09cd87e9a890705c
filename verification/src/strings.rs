//! Character-level string helpers: equality, prefix and substring tests,
//! trimming, and lexicographic comparison. Everything is specified over the
//! `Seq<char>` view of `str`.

use vstd::prelude::*;
use vstd::seq_lib::*;

verus! {

/// Character-for-character equality of two string slices.
pub fn str_eq(a: &str, b: &str) -> (r: bool)
    ensures
        r == (a@ == b@),
{
    let alen: usize = a.unicode_len();
    let blen: usize = b.unicode_len();
    if alen != blen {
        assert(a@ != b@);
        return false;
    }
    let mut i: usize = 0;
    while i < alen
        invariant
            i <= alen,
            alen == a@.len(),
            alen == b@.len(),
            forall|j: int| 0 <= j < i ==> a@[j] == b@[j],
        decreases alen - i,
    {
        if a.get_char(i) != b.get_char(i) {
            assert(a@[i as int] != b@[i as int]);
            return false;
        }
        i = i + 1;
    }
    assert(a@ =~= b@);
    true
}

/// `p` occurs in `s` starting at position `at`.
pub open spec fn spec_matches_at(s: Seq<char>, p: Seq<char>, at: int) -> bool {
    0 <= at && at + p.len() <= s.len() && s.subrange(at, at + p.len() as int) == p
}

/// `s` begins with `p`.
pub open spec fn spec_starts_with(s: Seq<char>, p: Seq<char>) -> bool {
    spec_matches_at(s, p, 0)
}

/// `p` occurs somewhere in `s`.
pub open spec fn spec_contains_str(s: Seq<char>, p: Seq<char>) -> bool {
    exists|at: int| spec_matches_at(s, p, at)
}

/// Does `p` occur in `s` at position `at`?
pub fn matches_at(s: &str, p: &str, at: usize) -> (r: bool)
    ensures
        r == spec_matches_at(s@, p@, at as int),
{
    let slen: usize = s.unicode_len();
    let plen: usize = p.unicode_len();
    if at > slen || plen > slen - at {
        return false;
    }
    let mut i: usize = 0;
    while i < plen
        invariant
            i <= plen,
            slen == s@.len(),
            plen == p@.len(),
            at + plen <= slen,
            forall|j: int| 0 <= j < i ==> s@[at + j] == p@[j],
        decreases plen - i,
    {
        if s.get_char(at + i) != p.get_char(i) {
            assert(s@[at + i] != p@[i as int]);
            assert(!spec_matches_at(s@, p@, at as int)) by {
                if spec_matches_at(s@, p@, at as int) {
                    assert(s@.subrange(at as int, at + p@.len() as int)[i as int] == p@[i as int]);
                }
            }
            return false;
        }
        i = i + 1;
    }
    assert(s@.subrange(at as int, at + p@.len() as int) =~= p@);
    true
}

/// Does `s` begin with `p`?
pub fn starts_with(s: &str, p: &str) -> (r: bool)
    ensures
        r == spec_starts_with(s@, p@),
{
    matches_at(s, p, 0)
}

/// Does `p` occur anywhere in `s`?
pub fn contains_str(s: &str, p: &str) -> (r: bool)
    ensures
        r == spec_contains_str(s@, p@),
{
    let slen: usize = s.unicode_len();
    let mut at: usize = 0;
    while at < slen
        invariant
            at <= slen,
            slen == s@.len(),
            forall|k: int| 0 <= k < at ==> !spec_matches_at(s@, p@, k),
        decreases slen - at,
    {
        if matches_at(s, p, at) {
            return true;
        }
        at = at + 1;
    }
    if matches_at(s, p, slen) {
        return true;
    }
    assert forall|k: int| !spec_matches_at(s@, p@, k) by {
        if 0 <= k < slen {
        } else if spec_matches_at(s@, p@, k) {
            assert(0 <= k && k + p@.len() <= s@.len());
            assert(k == slen);
        }
    }
    false
}

/// Some line of `s` (a segment starting at position zero or right after a
/// newline) begins with `p`.
pub open spec fn spec_has_line_starting_with(s: Seq<char>, p: Seq<char>) -> bool {
    exists|at: int|
        #![trigger spec_matches_at(s, p, at)]
        (at == 0 || (0 < at <= s.len() && s[at - 1] == '\n')) && spec_matches_at(s, p, at)
}

/// Does some line of `s` begin with `p`?
pub fn has_line_starting_with(s: &str, p: &str) -> (r: bool)
    ensures
        r == spec_has_line_starting_with(s@, p@),
{
    let slen: usize = s.unicode_len();
    let mut at: usize = 0;
    while at < slen
        invariant
            at <= slen,
            slen == s@.len(),
            forall|k: int|
                #![trigger spec_matches_at(s@, p@, k)]
                0 <= k < at && (k == 0 || s@[k - 1] == '\n') ==> !spec_matches_at(s@, p@, k),
        decreases slen - at,
    {
        let at_line_start = at == 0 || s.get_char(at - 1) == '\n';
        if at_line_start && matches_at(s, p, at) {
            return true;
        }
        proof {
            if at == 0 || s@[at - 1] == '\n' {
                assert(!spec_matches_at(s@, p@, at as int));
            }
        }
        at = at + 1;
    }
    let last = (slen == 0 || s.get_char(slen - 1) == '\n') && matches_at(s, p, slen);
    if last {
        return true;
    }
    proof {
        if spec_has_line_starting_with(s@, p@) {
            let k = choose|k: int|
                #![trigger spec_matches_at(s@, p@, k)]
                (k == 0 || (0 < k <= s@.len() && s@[k - 1] == '\n')) && spec_matches_at(s@, p@, k);
            assert(0 <= k <= s@.len());
            if k < slen {
            } else {
                assert(k == slen);
            }
        }
    }
    false
}

/// The four whitespace characters the crate trims from pseudo-file contents.
pub open spec fn is_space(c: char) -> bool {
    c == ' ' || c == '\n' || c == '\t' || c == '\r'
}

/// `s` with leading whitespace removed.
pub open spec fn spec_drop_leading(s: Seq<char>) -> Seq<char>
    decreases s.len(),
{
    if s.len() > 0 && is_space(s[0]) {
        spec_drop_leading(s.drop_first())
    } else {
        s
    }
}

/// `s` with trailing whitespace removed.
pub open spec fn spec_drop_trailing(s: Seq<char>) -> Seq<char>
    decreases s.len(),
{
    if s.len() > 0 && is_space(s.last()) {
        spec_drop_trailing(s.drop_last())
    } else {
        s
    }
}

/// `s` with whitespace removed from both ends.
pub open spec fn spec_trim(s: Seq<char>) -> Seq<char> {
    spec_drop_trailing(spec_drop_leading(s))
}

pub proof fn lemma_drop_leading_at(s: Seq<char>, f: int)
    requires
        0 <= f <= s.len(),
        forall|j: int| 0 <= j < f ==> is_space(s[j]),
        f < s.len() ==> !is_space(s[f]),
    ensures
        spec_drop_leading(s) == s.subrange(f, s.len() as int),
    decreases f,
{
    if f == 0 {
        if s.len() > 0 && is_space(s[0]) {
            assert(false);
        }
        assert(s.subrange(0, s.len() as int) =~= s);
    } else {
        assert(is_space(s[0]));
        lemma_drop_leading_at(s.drop_first(), f - 1);
        assert(s.drop_first().subrange(f - 1, s.drop_first().len() as int) =~= s.subrange(
            f,
            s.len() as int,
        ));
    }
}

proof fn lemma_drop_trailing_at(s: Seq<char>, l: int)
    requires
        0 <= l <= s.len(),
        forall|j: int| l <= j < s.len() ==> is_space(s[j]),
        l > 0 ==> !is_space(s[l - 1]),
    ensures
        spec_drop_trailing(s) == s.subrange(0, l),
    decreases s.len() - l,
{
    if l == s.len() {
        if s.len() > 0 && is_space(s.last()) {
            assert(false);
        }
        assert(s.subrange(0, s.len() as int) =~= s);
    } else {
        assert(is_space(s.last()));
        lemma_drop_trailing_at(s.drop_last(), l);
        assert(s.drop_last().subrange(0, l) =~= s.subrange(0, l));
    }
}

/// Remove leading and trailing whitespace (space, newline, tab, carriage
/// return), as pseudo-file contents carry a trailing newline.
pub fn trim_ws(s: &str) -> (r: String)
    ensures
        r@ == spec_trim(s@),
{
    let len: usize = s.unicode_len();
    let mut f: usize = 0;
    while f < len && is_space_char(s.get_char(f))
        invariant
            f <= len,
            len == s@.len(),
            forall|j: int| 0 <= j < f ==> is_space(s@[j]),
        decreases len - f,
    {
        f = f + 1;
    }
    proof {
        lemma_drop_leading_at(s@, f as int);
    }
    let mut l: usize = len;
    while l > f && is_space_char(s.get_char(l - 1))
        invariant
            f <= l <= len,
            len == s@.len(),
            forall|j: int| l <= j < len ==> is_space(s@[j]),
        decreases l,
    {
        l = l - 1;
    }
    let out = s.substring_char(f, l);
    proof {
        let lead = s@.subrange(f as int, len as int);
        if l == f {
            lemma_drop_trailing_at(lead, 0);
        } else {
            lemma_drop_trailing_at(lead, l - f);
        }
        assert(lead.subrange(0, l - f) =~= s@.subrange(f as int, l as int));
    }
    out.to_owned()
}

/// Whether `c` is one of the whitespace characters in [`is_space`].
pub fn is_space_char(c: char) -> (r: bool)
    ensures
        r == is_space(c),
{
    c == ' ' || c == '\n' || c == '\t' || c == '\r'
}

/// A line with one trailing carriage return removed.
pub open spec fn strip_cr(l: Seq<char>) -> Seq<char> {
    if l.len() > 0 && l.last() == '\r' {
        l.drop_last()
    } else {
        l
    }
}

/// The lines of `s` from position zero on, with `cur` the part of the
/// current line read so far: each newline ends a line, a carriage return
/// right before it is dropped, and a final line needs no newline.
pub open spec fn spec_lines_from(s: Seq<char>, cur: Seq<char>) -> Seq<Seq<char>>
    decreases s.len(),
{
    if s.len() == 0 {
        if cur.len() == 0 {
            Seq::empty()
        } else {
            seq![strip_cr(cur)]
        }
    } else if s[0] == '\n' {
        seq![strip_cr(cur)] + spec_lines_from(s.drop_first(), Seq::empty())
    } else {
        spec_lines_from(s.drop_first(), cur.push(s[0]))
    }
}

/// The lines of `s`.
pub open spec fn spec_lines(s: Seq<char>) -> Seq<Seq<char>> {
    spec_lines_from(s, Seq::empty())
}

/// Split `s` into its lines.
pub fn split_lines(s: &str) -> (r: Vec<String>)
    ensures
        r.deep_view() == spec_lines(s@),
{
    let len: usize = s.unicode_len();
    let mut out: Vec<String> = Vec::new();
    let mut start: usize = 0;
    let mut i: usize = 0;
    proof {
        assert(s@.skip(0) =~= s@);
        assert(s@.subrange(0, 0) =~= Seq::<char>::empty());
        assert(out.deep_view() =~= Seq::<Seq<char>>::empty());
        assert(Seq::<Seq<char>>::empty() + spec_lines_from(s@, Seq::<char>::empty())
            =~= spec_lines(s@));
    }
    while i < len
        invariant
            start <= i <= len,
            len == s@.len(),
            spec_lines(s@) == out.deep_view() + spec_lines_from(
                s@.skip(i as int),
                s@.subrange(start as int, i as int),
            ),
        decreases len - i,
    {
        let ghost rest = s@.skip(i as int);
        let ghost cur = s@.subrange(start as int, i as int);
        proof {
            assert(rest[0] == s@[i as int]);
            assert(rest.drop_first() =~= s@.skip(i + 1));
        }
        let c = s.get_char(i);
        if c == '\n' {
            let end = if i > start && s.get_char(i - 1) == '\r' {
                i - 1
            } else {
                i
            };
            let line = s.substring_char(start, end).to_owned();
            let ghost before = out.deep_view();
            out.push(line);
            proof {
                assert(s@.subrange(start as int, end as int) =~= strip_cr(cur));
                assert(out.deep_view() =~= before.push(strip_cr(cur)));
                assert(spec_lines_from(rest, cur) == seq![strip_cr(cur)] + spec_lines_from(
                    s@.skip(i + 1),
                    Seq::empty(),
                ));
                assert(before.push(strip_cr(cur)) + spec_lines_from(s@.skip(i + 1), Seq::empty())
                    =~= before + spec_lines_from(rest, cur));
                assert(s@.subrange(i + 1, i + 1) =~= Seq::<char>::empty());
            }
            start = i + 1;
        } else {
            proof {
                assert(spec_lines_from(rest, cur) == spec_lines_from(
                    s@.skip(i + 1),
                    cur.push(s@[i as int]),
                ));
                assert(cur.push(s@[i as int]) =~= s@.subrange(start as int, i + 1));
            }
        }
        i = i + 1;
    }
    proof {
        assert(s@.skip(len as int).len() == 0);
    }
    if start < len {
        let end = if len > start && s.get_char(len - 1) == '\r' {
            len - 1
        } else {
            len
        };
        let ghost cur = s@.subrange(start as int, len as int);
        let line = s.substring_char(start, end).to_owned();
        let ghost before = out.deep_view();
        out.push(line);
        proof {
            assert(s@.subrange(start as int, end as int) =~= strip_cr(cur));
            assert(out.deep_view() =~= before.push(strip_cr(cur)));
            assert(cur.len() > 0);
            assert(spec_lines_from(s@.skip(len as int), cur) == seq![strip_cr(cur)]);
            assert(before.push(strip_cr(cur)) =~= before + seq![strip_cr(cur)]);
        }
    } else {
        proof {
            let cur = s@.subrange(start as int, len as int);
            assert(cur.len() == 0);
            assert(spec_lines_from(s@.skip(len as int), cur) =~= Seq::<Seq<char>>::empty());
            assert(out.deep_view() + Seq::<Seq<char>>::empty() =~= out.deep_view());
        }
    }
    out
}

/// The lines joined back: each line followed by one newline; no lines at
/// all still yield a single newline.
pub open spec fn spec_join_lines(lines: Seq<Seq<char>>) -> Seq<char> {
    if lines.len() == 0 {
        seq!['\n']
    } else {
        spec_join_each(lines)
    }
}

/// Each line followed by a newline.
pub open spec fn spec_join_each(lines: Seq<Seq<char>>) -> Seq<char>
    decreases lines.len(),
{
    if lines.len() == 0 {
        Seq::empty()
    } else {
        lines[0] + seq!['\n'] + spec_join_each(lines.drop_first())
    }
}

/// Join lines with newlines, ending with a newline.
pub fn join_lines(lines: &Vec<String>) -> (r: String)
    ensures
        r@ == spec_join_lines(lines.deep_view()),
{
    let n: usize = lines.len();
    if n == 0 {
        let mut s = String::new();
        s.append("\n");
        proof {
            reveal_strlit("\n");
            assert(s@ =~= seq!['\n']);
        }
        return s;
    }
    let mut s = String::new();
    let mut i: usize = 0;
    proof {
        assert(lines.deep_view().skip(0) =~= lines.deep_view());
        assert(s@ + spec_join_each(lines.deep_view()) =~= spec_join_each(lines.deep_view()));
    }
    while i < n
        invariant
            i <= n,
            n == lines@.len(),
            n > 0,
            spec_join_each(lines.deep_view()) == s@ + spec_join_each(
                lines.deep_view().skip(i as int),
            ),
        decreases n - i,
    {
        let ghost rest = lines.deep_view().skip(i as int);
        let ghost before = s@;
        proof {
            assert(rest[0] == lines.deep_view()[i as int]);
            assert(rest.drop_first() =~= lines.deep_view().skip(i + 1));
            assert(lines.deep_view()[i as int] == lines@[i as int]@);
        }
        s.append(lines[i].as_str());
        s.append("\n");
        proof {
            reveal_strlit("\n");
            assert(s@ =~= before + (lines@[i as int]@ + seq!['\n']));
            assert(spec_join_each(rest) == lines@[i as int]@ + seq!['\n'] + spec_join_each(
                lines.deep_view().skip(i + 1),
            ));
            assert(before + (lines@[i as int]@ + seq!['\n'] + spec_join_each(
                lines.deep_view().skip(i + 1),
            )) =~= s@ + spec_join_each(lines.deep_view().skip(i + 1)));
        }
        i = i + 1;
    }
    proof {
        assert(spec_join_each(lines.deep_view().skip(n as int)).len() == 0);
        assert(s@ + spec_join_each(lines.deep_view().skip(n as int)) =~= s@);
    }
    s
}

/// The strings joined with single spaces between them.
pub open spec fn spec_join_spaces(ps: Seq<Seq<char>>) -> Seq<char>
    decreases ps.len(),
{
    if ps.len() == 0 {
        Seq::empty()
    } else if ps.len() == 1 {
        ps[0]
    } else {
        spec_join_spaces(ps.drop_last()) + " "@ + ps.last()
    }
}

/// Join strings with single spaces.
pub fn join_spaces(ps: &Vec<String>) -> (r: String)
    ensures
        r@ == spec_join_spaces(ps.deep_view()),
{
    let n: usize = ps.len();
    let mut s = String::new();
    if n == 0 {
        proof {
            assert(s@ =~= spec_join_spaces(ps.deep_view()));
        }
        return s;
    }
    s.append(ps[0].as_str());
    proof {
        assert(ps.deep_view().take(1) =~= seq![ps@[0]@]);
        assert(spec_join_spaces(ps.deep_view().take(1)) == ps@[0]@);
        assert(s@ =~= spec_join_spaces(ps.deep_view().take(1)));
    }
    let mut i: usize = 1;
    while i < n
        invariant
            1 <= i <= n,
            n == ps@.len(),
            s@ == spec_join_spaces(ps.deep_view().take(i as int)),
        decreases n - i,
    {
        let ghost before = s@;
        s.append(" ");
        s.append(ps[i].as_str());
        proof {
            let p = ps.deep_view().take(i + 1);
            assert(p.drop_last() =~= ps.deep_view().take(i as int));
            assert(p.last() == ps@[i as int]@);
            assert(p.len() >= 2);
            assert(s@ =~= before + " "@ + ps@[i as int]@);
        }
        i = i + 1;
    }
    proof {
        assert(ps.deep_view().take(n as int) =~= ps.deep_view());
    }
    s
}

/// `s` with every maximal leading repetition of `0x` removed, mirroring how
/// hex ids read from the device tree are prepared for the `new_id` file.
pub open spec fn spec_strip_0x(s: Seq<char>) -> Seq<char>
    decreases s.len(),
{
    if s.len() >= 2 && s[0] == '0' && s[1] == 'x' {
        spec_strip_0x(s.skip(2))
    } else {
        s
    }
}

/// Remove each leading `0x` from `s`.
pub fn strip_0x(s: &str) -> (r: String)
    ensures
        r@ == spec_strip_0x(s@),
{
    let len: usize = s.unicode_len();
    let mut i: usize = 0;
    proof {
        assert(s@.skip(0) =~= s@);
    }
    while len - i >= 2 && s.get_char(i) == '0' && s.get_char(i + 1) == 'x'
        invariant
            i <= len,
            len == s@.len(),
            spec_strip_0x(s@) == spec_strip_0x(s@.skip(i as int)),
        decreases len - i,
    {
        proof {
            let rest = s@.skip(i as int);
            assert(rest[0] == '0' && rest[1] == 'x');
            assert(rest.skip(2) =~= s@.skip(i + 2));
        }
        i = i + 2;
    }
    proof {
        let rest = s@.skip(i as int);
        if rest.len() >= 2 {
            assert(rest[0] == s@[i as int] && rest[1] == s@[i + 1]);
        }
        assert(spec_strip_0x(rest) == rest);
        assert(rest =~= s@.subrange(i as int, len as int));
    }
    s.substring_char(i, len).to_owned()
}

/// Lexicographic order on character sequences, by code point.
pub open spec fn spec_lex_le(a: Seq<char>, b: Seq<char>) -> bool
    decreases a.len(),
{
    if a.len() == 0 {
        true
    } else if b.len() == 0 {
        false
    } else if (a[0] as u32) != (b[0] as u32) {
        (a[0] as u32) < (b[0] as u32)
    } else {
        spec_lex_le(a.drop_first(), b.drop_first())
    }
}

/// The lexicographic order is total.
pub proof fn lemma_lex_le_total(a: Seq<char>, b: Seq<char>)
    ensures
        spec_lex_le(a, b) || spec_lex_le(b, a),
    decreases a.len(),
{
    if a.len() > 0 && b.len() > 0 && (a[0] as u32) == (b[0] as u32) {
        lemma_lex_le_total(a.drop_first(), b.drop_first());
    }
}

/// The lexicographic order is transitive.
pub proof fn lemma_lex_le_trans(a: Seq<char>, b: Seq<char>, c: Seq<char>)
    requires
        spec_lex_le(a, b),
        spec_lex_le(b, c),
    ensures
        spec_lex_le(a, c),
    decreases a.len(),
{
    if a.len() > 0 && b.len() > 0 && c.len() > 0 {
        if (a[0] as u32) == (b[0] as u32) && (b[0] as u32) == (c[0] as u32) {
            lemma_lex_le_trans(a.drop_first(), b.drop_first(), c.drop_first());
        }
    }
}

/// Compare two strings in the order of [`spec_lex_le`].
pub fn lex_le(a: &str, b: &str) -> (r: bool)
    ensures
        r == spec_lex_le(a@, b@),
{
    let alen: usize = a.unicode_len();
    let blen: usize = b.unicode_len();
    let mut i: usize = 0;
    proof {
        assert(a@.skip(0) =~= a@);
        assert(b@.skip(0) =~= b@);
    }
    while i < alen && i < blen
        invariant
            i <= alen,
            i <= blen,
            alen == a@.len(),
            blen == b@.len(),
            spec_lex_le(a@, b@) == spec_lex_le(a@.skip(i as int), b@.skip(i as int)),
        decreases alen - i,
    {
        let ca = a.get_char(i);
        let cb = b.get_char(i);
        proof {
            let ra = a@.skip(i as int);
            let rb = b@.skip(i as int);
            assert(ra[0] == ca && rb[0] == cb);
            if (ca as u32) == (cb as u32) {
                assert(ra.drop_first() =~= a@.skip(i + 1));
                assert(rb.drop_first() =~= b@.skip(i + 1));
            }
        }
        if (ca as u32) != (cb as u32) {
            return (ca as u32) < (cb as u32);
        }
        i = i + 1;
    }
    proof {
        let ra = a@.skip(i as int);
        let rb = b@.skip(i as int);
        if i >= alen {
            assert(ra.len() == 0);
        } else {
            assert(rb.len() == 0 && ra.len() > 0);
        }
    }
    alen <= blen
}

} // verus!
