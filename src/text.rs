//! String primitives over the character view of `str`: splitting, trimming
//! and prefix tests, each specified over `Seq<char>`.
use vstd::prelude::*;

verus! {

/// Whether `c` has the Unicode `White_Space` property, as `char::is_whitespace`.
pub open spec fn is_ws(c: char) -> bool {
    let u = c as u32;
    (0x09 <= u && u <= 0x0d) || u == 0x20 || u == 0x85 || u == 0xa0 || u == 0x1680
        || (0x2000 <= u && u <= 0x200a) || u == 0x2028 || u == 0x2029 || u == 0x202f
        || u == 0x205f || u == 0x3000
}

pub fn is_whitespace(c: char) -> (r: bool)
    ensures
        r == is_ws(c),
{
    let u = c as u32;
    (0x09 <= u && u <= 0x0d) || u == 0x20 || u == 0x85 || u == 0xa0 || u == 0x1680
        || (0x2000 <= u && u <= 0x200a) || u == 0x2028 || u == 0x2029 || u == 0x202f
        || u == 0x205f || u == 0x3000
}

/// The characters of `s`, in order.
pub fn chars_of(s: &str) -> (r: Vec<char>)
    ensures
        r@ == s@,
{
    let n = s.unicode_len();
    let mut r: Vec<char> = Vec::new();
    let mut i: usize = 0;
    while i < n
        invariant
            n == s@.len(),
            i <= n,
            r@ == s@.subrange(0, i as int),
        decreases n - i,
    {
        r.push(s.get_char(i));
        i += 1;
        assert(r@ =~= s@.subrange(0, i as int));
    }
    assert(r@ =~= s@);
    r
}

/// Whether `d` occurs in `s` at position `i`.
pub open spec fn occurs_at(s: Seq<char>, d: Seq<char>, i: int) -> bool {
    0 <= i && i + d.len() <= s.len() && s.subrange(i, i + d.len()) == d
}

pub open spec fn has_prefix(s: Seq<char>, p: Seq<char>) -> bool {
    occurs_at(s, p, 0)
}

pub open spec fn has_suffix(s: Seq<char>, p: Seq<char>) -> bool {
    occurs_at(s, p, s.len() - p.len())
}

pub open spec fn contains_seq(s: Seq<char>, d: Seq<char>) -> bool {
    exists|i: int| occurs_at(s, d, i)
}

pub fn occurs_at_exec(s: &Vec<char>, d: &Vec<char>, i: usize) -> (r: bool)
    ensures
        r == occurs_at(s@, d@, i as int),
{
    if d.len() > s.len() || i > s.len() - d.len() {
        return false;
    }
    let mut k: usize = 0;
    while k < d.len()
        invariant
            s@.len() == s.len(),
            i + d@.len() <= s@.len(),
            k <= d@.len(),
            s@.subrange(i as int, i + k) == d@.subrange(0, k as int),
        decreases d.len() - k,
    {
        if s[i + k] != d[k] {
            assert(s@.subrange(i as int, i + d@.len())[k as int] != d@[k as int]);
            return false;
        }
        k += 1;
        assert(s@.subrange(i as int, i + k) =~= d@.subrange(0, k as int));
    }
    assert(d@.subrange(0, k as int) =~= d@);
    true
}

pub fn starts_with(s: &str, p: &str) -> (r: bool)
    ensures
        r == has_prefix(s@, p@),
{
    occurs_at_exec(&chars_of(s), &chars_of(p), 0)
}

pub fn ends_with(s: &str, p: &str) -> (r: bool)
    ensures
        r == has_suffix(s@, p@),
{
    let sc = chars_of(s);
    let pc = chars_of(p);
    if pc.len() > sc.len() {
        false
    } else {
        occurs_at_exec(&sc, &pc, sc.len() - pc.len())
    }
}

pub fn contains(s: &str, d: &str) -> (r: bool)
    ensures
        r == contains_seq(s@, d@),
{
    let sc = chars_of(s);
    let dc = chars_of(d);
    if dc.len() > sc.len() {
        assert forall|i: int| !occurs_at(s@, d@, i) by {}
        return false;
    }
    let last = sc.len() - dc.len();
    let mut i: usize = 0;
    loop
        invariant
            sc@ == s@,
            dc@ == d@,
            last == sc@.len() - dc@.len(),
            i <= last,
            forall|j: int| 0 <= j < i ==> !occurs_at(s@, d@, j),
        decreases last - i,
    {
        if occurs_at_exec(&sc, &dc, i) {
            return true;
        }
        if i == last {
            assert forall|j: int| !occurs_at(s@, d@, j) by {
                if 0 <= j <= i {
                }
            }
            return false;
        }
        i += 1;
    }
}

/// The text left after `p` is removed from the front of `s`.
pub fn strip_prefix_or_keep(s: &str, p: &str) -> (r: String)
    ensures
        r@ == (if has_prefix(s@, p@) { s@.subrange(p@.len() as int, s@.len() as int) } else { s@ }),
{
    if starts_with(s, p) {
        let n = s.unicode_len();
        let k = p.unicode_len();
        String::from_str(s.substring_char(k, n))
    } else {
        String::from_str(s)
    }
}

/// The pieces of `s` between non-overlapping occurrences of `d`, scanning
/// from the left, with `cur` the piece gathered so far.
pub open spec fn split_from(s: Seq<char>, d: Seq<char>, cur: Seq<char>) -> Seq<Seq<char>>
    decreases s.len(),
{
    if s.len() == 0 {
        seq![cur]
    } else if d.len() > 0 && has_prefix(s, d) {
        seq![cur] + split_from(s.subrange(d.len() as int, s.len() as int), d, Seq::empty())
    } else {
        split_from(s.drop_first(), d, cur.push(s[0]))
    }
}

/// What `str::split` yields for a non-empty pattern `d`.
pub open spec fn split_spec(s: Seq<char>, d: Seq<char>) -> Seq<Seq<char>> {
    split_from(s, d, Seq::empty())
}

pub open spec fn views(v: Seq<String>) -> Seq<Seq<char>> {
    v.map_values(|x: String| x@)
}

/// Splits `s` at each occurrence of the non-empty `d`.
pub fn split_by(s: &str, d: &str) -> (r: Vec<String>)
    requires
        d@.len() > 0,
    ensures
        views(r@) == split_spec(s@, d@),
{
    let sc = chars_of(s);
    let dc = chars_of(d);
    let n = sc.len();
    let mut r: Vec<String> = Vec::new();
    let mut start: usize = 0;
    let mut i: usize = 0;
    assert(s@.subrange(0, n as int) =~= s@);
    assert(views(r@) =~= Seq::<Seq<char>>::empty());
    assert(s@.subrange(0, 0) =~= Seq::<char>::empty());
    while i < n
        invariant
            sc@ == s@,
            dc@ == d@,
            d@.len() > 0,
            n == s@.len(),
            start <= i <= n,
            views(r@) + split_from(s@.subrange(i as int, n as int), d@, s@.subrange(start as int, i as int))
                == split_spec(s@, d@),
        decreases n - i,
    {
        let rest = Ghost(s@.subrange(i as int, n as int));
        if occurs_at_exec(&sc, &dc, i) {
            assert(rest@.subrange(0, d@.len() as int) =~= s@.subrange(i as int, i + d@.len()));
            let piece = String::from_str(s.substring_char(start, i));
            r.push(piece);
            i = i + dc.len();
            assert(rest@.subrange(d@.len() as int, rest@.len() as int) =~= s@.subrange(i as int, n as int));
            assert(s@.subrange(i as int, i as int) =~= Seq::<char>::empty());
            assert(views(r@) =~= views(r@.drop_last()).push(piece@));
            start = i;
        } else {
            proof {
                if d@.len() <= rest@.len() {
                    assert(rest@.subrange(0, d@.len() as int) =~= s@.subrange(i as int, i + d@.len()));
                }
            }
            assert(rest@.drop_first() =~= s@.subrange(i + 1, n as int));
            assert(s@.subrange(start as int, i as int).push(s@[i as int]) =~= s@.subrange(start as int, i + 1));
            i += 1;
        }
    }
    let piece = String::from_str(s.substring_char(start, n));
    r.push(piece);
    assert(views(r@) =~= views(r@.drop_last()).push(piece@));
    r
}

/// Removes one trailing carriage return.
pub open spec fn strip_cr(l: Seq<char>) -> Seq<char> {
    if l.len() > 0 && l.last() == '\r' { l.drop_last() } else { l }
}

/// What `str::lines` yields: pieces between newlines, the final newline
/// optional, a carriage return before each newline removed.
pub open spec fn lines_spec(s: Seq<char>) -> Seq<Seq<char>> {
    let p = split_spec(s, seq!['\n']);
    let body = p.drop_last().map_values(|l: Seq<char>| strip_cr(l));
    if p.last().len() == 0 { body } else { body.push(p.last()) }
}

pub proof fn lemma_split_nonempty(s: Seq<char>, d: Seq<char>, cur: Seq<char>)
    ensures
        split_from(s, d, cur).len() > 0,
    decreases s.len(),
{
    if s.len() == 0 {
    } else if d.len() > 0 && has_prefix(s, d) {
        lemma_split_nonempty(s.subrange(d.len() as int, s.len() as int), d, Seq::empty());
    } else {
        lemma_split_nonempty(s.drop_first(), d, cur.push(s[0]));
    }
}

pub fn drop_trailing_cr(l: String) -> (r: String)
    ensures
        r@ == strip_cr(l@),
{
    let n = l.as_str().unicode_len();
    if n > 0 && l.as_str().get_char(n - 1) == '\r' {
        String::from_str(l.as_str().substring_char(0, n - 1))
    } else {
        l
    }
}

/// Splits `s` into lines.
pub fn lines(s: &str) -> (r: Vec<String>)
    ensures
        views(r@) == lines_spec(s@),
{
    proof {
        reveal_strlit("\n");
        assert("\n"@ =~= seq!['\n']);
    }
    let p = split_by(s, "\n");
    proof {
        lemma_split_nonempty(s@, seq!['\n'], Seq::empty());
    }
    let ghost pv = views(p@);
    let ghost target = pv.drop_last().map_values(|l: Seq<char>| strip_cr(l));
    let m = p.len() - 1;
    let mut r: Vec<String> = Vec::new();
    let mut i: usize = 0;
    while i < m
        invariant
            m + 1 == p@.len(),
            pv == views(p@),
            pv == split_spec(s@, seq!['\n']),
            i <= m,
            target == pv.drop_last().map_values(|l: Seq<char>| strip_cr(l)),
            views(r@) == target.subrange(0, i as int),
        decreases m - i,
    {
        let l = drop_trailing_cr(p[i].clone());
        assert(pv[i as int] == p@[i as int]@);
        let ghost old_r = r@;
        r.push(l);
        assert(views(r@) =~= views(old_r).push(l@));
        assert(target[i as int] == strip_cr(pv[i as int]));
        i += 1;
        assert(views(r@) =~= target.subrange(0, i as int));
    }
    assert(target.subrange(0, i as int) =~= target);
    let last = p[m].clone();
    if last.as_str().unicode_len() > 0 {
        r.push(last);
        assert(views(r@) =~= views(r@.drop_last()).push(last@));
    }
    r
}

pub open spec fn trim_start_spec(s: Seq<char>) -> Seq<char>
    decreases s.len(),
{
    if s.len() > 0 && is_ws(s[0]) { trim_start_spec(s.drop_first()) } else { s }
}

pub open spec fn trim_end_spec(s: Seq<char>) -> Seq<char>
    decreases s.len(),
{
    if s.len() > 0 && is_ws(s.last()) { trim_end_spec(s.drop_last()) } else { s }
}

/// What `str::trim` yields: `s` without leading and trailing whitespace.
pub open spec fn trim_spec(s: Seq<char>) -> Seq<char> {
    trim_end_spec(trim_start_spec(s))
}

/// Removes leading and trailing whitespace.
pub fn trim(s: &str) -> (r: String)
    ensures
        r@ == trim_spec(s@),
{
    let sc = chars_of(s);
    let n = sc.len();
    let mut i: usize = 0;
    assert(s@.subrange(0, n as int) =~= s@);
    while i < n && is_whitespace(sc[i])
        invariant
            sc@ == s@,
            n == s@.len(),
            i <= n,
            trim_start_spec(s@) == trim_start_spec(s@.subrange(i as int, n as int)),
        decreases n - i,
    {
        assert(s@.subrange(i as int, n as int).drop_first() =~= s@.subrange(i + 1, n as int));
        i += 1;
    }
    let mut j: usize = n;
    assert(trim_start_spec(s@) == s@.subrange(i as int, n as int));
    while j > i && is_whitespace(sc[j - 1])
        invariant
            sc@ == s@,
            n == s@.len(),
            i <= j <= n,
            trim_start_spec(s@) == s@.subrange(i as int, n as int),
            trim_spec(s@) == trim_end_spec(s@.subrange(i as int, j as int)),
        decreases j - i,
    {
        assert(s@.subrange(i as int, j as int).drop_last() =~= s@.subrange(i as int, j - 1));
        j -= 1;
    }
    String::from_str(s.substring_char(i, j))
}

/// The maximal runs of non-whitespace characters of `s`, with `cur` the run
/// gathered so far.
pub open spec fn words_from(s: Seq<char>, cur: Seq<char>) -> Seq<Seq<char>>
    decreases s.len(),
{
    let done: Seq<Seq<char>> = if cur.len() > 0 { seq![cur] } else { Seq::empty() };
    if s.len() == 0 {
        done
    } else if is_ws(s[0]) {
        done + words_from(s.drop_first(), Seq::empty())
    } else {
        words_from(s.drop_first(), cur.push(s[0]))
    }
}

/// What `str::split_whitespace` yields.
pub open spec fn words_spec(s: Seq<char>) -> Seq<Seq<char>> {
    words_from(s, Seq::empty())
}

/// Splits `s` into its whitespace-separated words.
pub fn split_whitespace(s: &str) -> (r: Vec<String>)
    ensures
        views(r@) == words_spec(s@),
{
    let sc = chars_of(s);
    let n = sc.len();
    let mut r: Vec<String> = Vec::new();
    let mut start: usize = 0;
    let mut i: usize = 0;
    assert(s@.subrange(0, n as int) =~= s@);
    assert(views(r@) =~= Seq::<Seq<char>>::empty());
    assert(s@.subrange(0, 0) =~= Seq::<char>::empty());
    while i < n
        invariant
            sc@ == s@,
            n == s@.len(),
            start <= i <= n,
            views(r@) + words_from(s@.subrange(i as int, n as int), s@.subrange(start as int, i as int))
                == words_spec(s@),
        decreases n - i,
    {
        let ghost rest = s@.subrange(i as int, n as int);
        let ghost cur = s@.subrange(start as int, i as int);
        assert(rest.drop_first() =~= s@.subrange(i + 1, n as int));
        if is_whitespace(sc[i]) {
            if start < i {
                let piece = String::from_str(s.substring_char(start, i));
                let ghost old_r = r@;
                r.push(piece);
                assert(views(r@) =~= views(old_r).push(piece@));
                assert(views(r@) =~= views(old_r) + seq![cur]);
            } else {
                assert(cur =~= Seq::<char>::empty());
            }
            i += 1;
            start = i;
            assert(s@.subrange(start as int, i as int) =~= Seq::<char>::empty());
        } else {
            assert(cur.push(s@[i as int]) =~= s@.subrange(start as int, i + 1));
            i += 1;
        }
    }
    assert(s@.subrange(i as int, n as int) =~= Seq::<char>::empty());
    if start < n {
        let piece = String::from_str(s.substring_char(start, n));
        let ghost old_r = r@;
        r.push(piece);
        assert(views(r@) =~= views(old_r).push(piece@));
    } else {
        assert(views(r@) =~= views(r@) + Seq::<Seq<char>>::empty());
    }
    r
}

/// What `str::trim_start_matches` yields for a string pattern: every
/// leading copy of `p` removed.
pub open spec fn strip_prefixes(s: Seq<char>, p: Seq<char>) -> Seq<char>
    decreases s.len(),
{
    if p.len() > 0 && has_prefix(s, p) {
        strip_prefixes(s.subrange(p.len() as int, s.len() as int), p)
    } else {
        s
    }
}

/// What `str::trim_end_matches` yields for a string pattern: every
/// trailing copy of `p` removed.
pub open spec fn strip_suffixes(s: Seq<char>, p: Seq<char>) -> Seq<char>
    decreases s.len(),
{
    if p.len() > 0 && has_suffix(s, p) {
        strip_suffixes(s.subrange(0, s.len() - p.len()), p)
    } else {
        s
    }
}

pub fn trim_start_matches(s: &str, p: &str) -> (r: String)
    ensures
        r@ == strip_prefixes(s@, p@),
{
    let sc = chars_of(s);
    let pc = chars_of(p);
    let n = sc.len();
    let k = pc.len();
    let mut i: usize = 0;
    assert(s@.subrange(0, n as int) =~= s@);
    while k > 0 && occurs_at_exec(&sc, &pc, i)
        invariant
            sc@ == s@,
            pc@ == p@,
            n == s@.len(),
            k == p@.len(),
            i <= n,
            strip_prefixes(s@, p@) == strip_prefixes(s@.subrange(i as int, n as int), p@),
        decreases n - i,
    {
        let ghost rest = s@.subrange(i as int, n as int);
        assert(rest.subrange(0, k as int) =~= s@.subrange(i as int, i + k));
        assert(rest.subrange(k as int, rest.len() as int) =~= s@.subrange(i + k, n as int));
        i = i + k;
    }
    proof {
        let rest = s@.subrange(i as int, n as int);
        if k > 0 && k <= rest.len() {
            assert(rest.subrange(0, k as int) =~= s@.subrange(i as int, i + k));
        }
    }
    String::from_str(s.substring_char(i, n))
}

pub fn trim_end_matches(s: &str, p: &str) -> (r: String)
    ensures
        r@ == strip_suffixes(s@, p@),
{
    let sc = chars_of(s);
    let pc = chars_of(p);
    let n = sc.len();
    let k = pc.len();
    let mut j: usize = n;
    assert(s@.subrange(0, n as int) =~= s@);
    while k > 0 && k <= j && occurs_at_exec(&sc, &pc, j - k)
        invariant
            sc@ == s@,
            pc@ == p@,
            n == s@.len(),
            k == p@.len(),
            j <= n,
            strip_suffixes(s@, p@) == strip_suffixes(s@.subrange(0, j as int), p@),
        decreases j,
    {
        let ghost rest = s@.subrange(0, j as int);
        assert(rest.subrange(j - k, j as int) =~= s@.subrange(j - k, j as int));
        assert(rest.subrange(0, j - k) =~= s@.subrange(0, j - k));
        j = j - k;
    }
    proof {
        let rest = s@.subrange(0, j as int);
        if k > 0 && k <= j {
            assert(rest.subrange(j - k, j as int) =~= s@.subrange(j - k, j as int));
        }
    }
    String::from_str(s.substring_char(0, j))
}

pub open spec fn is_digit(c: char) -> bool {
    '0' <= c && c <= '9'
}

/// The number written in decimal by the digits `s`.
pub open spec fn digits_value(s: Seq<char>) -> nat
    decreases s.len(),
{
    if s.len() == 0 {
        0
    } else {
        digits_value(s.drop_last()) * 10 + ((s.last() as u32) - 48) as nat
    }
}

/// `s` without one leading plus sign.
pub open spec fn unsigned_part(s: Seq<char>) -> Seq<char> {
    if s.len() > 0 && s[0] == '+' { s.drop_first() } else { s }
}

pub open spec fn all_digits(t: Seq<char>) -> bool {
    forall|i: int| 0 <= i < t.len() ==> is_digit(#[trigger] t[i])
}

/// What `usize::from_str` yields: an optional `+`, then one or more decimal
/// digits whose value fits in `usize`.
pub open spec fn parse_usize_spec(s: Seq<char>) -> Option<usize> {
    let t = unsigned_part(s);
    if t.len() > 0 && all_digits(t) && digits_value(t) <= usize::MAX {
        Some(digits_value(t) as usize)
    } else {
        None
    }
}

pub fn parse_usize(s: &str) -> (r: Option<usize>)
    ensures
        r == parse_usize_spec(s@),
{
    let sc = chars_of(s);
    let n = sc.len();
    let start: usize = if n > 0 && sc[0] == '+' { 1 } else { 0 };
    let ghost t = unsigned_part(s@);
    assert(t =~= s@.subrange(start as int, n as int));
    if start == n {
        return None;
    }
    let mut v: usize = 0;
    let mut i: usize = start;
    assert(s@.subrange(start as int, start as int) =~= Seq::<char>::empty());
    while i < n
        invariant
            sc@ == s@,
            n == s@.len(),
            start <= i <= n,
            t == s@.subrange(start as int, n as int),
            t == unsigned_part(s@),
            forall|k: int| start <= k < i ==> is_digit(#[trigger] s@[k]),
            v as nat == digits_value(s@.subrange(start as int, i as int)),
        decreases n - i,
    {
        let c = sc[i];
        let ghost pre = s@.subrange(start as int, i as int);
        let ghost next = s@.subrange(start as int, i + 1);
        assert(next.drop_last() =~= pre);
        if !('0' <= c && c <= '9') {
            assert(t[i - start] == c);
            assert(!is_digit(t[i - start]));
            assert(!all_digits(t));
            return None;
        }
        let d = (c as u32 - 48) as usize;
        if v > (usize::MAX - d) / 10 {
            proof {
                assert(digits_value(next) == v * 10 + d) by (nonlinear_arith)
                    requires digits_value(next) == digits_value(pre) * 10 + d, v == digits_value(pre);
                assert(v * 10 + d > usize::MAX) by (nonlinear_arith)
                    requires v > (usize::MAX - d) / 10, d <= 9;
                lemma_digits_value_grows(t, (i + 1 - start) as int);
                assert(t.subrange(0, (i + 1 - start) as int) =~= next);
                assert(digits_value(t) > usize::MAX);
            }
            return None;
        }
        assert(v * 10 + d <= usize::MAX) by (nonlinear_arith)
            requires v <= (usize::MAX - d) / 10, d <= 9;
        v = v * 10 + d;
        i += 1;
    }
    assert(s@.subrange(start as int, n as int) =~= t);
    assert(all_digits(t)) by {
        assert forall|k: int| 0 <= k < t.len() implies is_digit(#[trigger] t[k]) by {
            assert(t[k] == s@[k + start]);
        }
    }
    Some(v)
}

/// A longer run of digits never has a smaller value.
pub proof fn lemma_digits_value_grows(t: Seq<char>, k: int)
    requires
        0 <= k <= t.len(),
    ensures
        digits_value(t.subrange(0, k)) <= digits_value(t),
    decreases t.len() - k,
{
    if k < t.len() {
        lemma_digits_value_grows(t, k + 1);
        assert(t.subrange(0, k + 1).drop_last() =~= t.subrange(0, k));
        assert(digits_value(t.subrange(0, k)) <= digits_value(t.subrange(0, k + 1))) by (nonlinear_arith)
            requires digits_value(t.subrange(0, k + 1)) == digits_value(t.subrange(0, k)) * 10
                + ((t.subrange(0, k + 1).last() as u32) - 48) as nat;
    } else {
        assert(t.subrange(0, k) =~= t);
    }
}

} // verus!
