//! Character-sequence helpers: prefixes, infixes, slicing and unsigned decimal numbers.
use vstd::prelude::*;

verus! {

/// `s` begins with `p`.
pub open spec fn has_prefix(s: Seq<char>, p: Seq<char>) -> bool {
    p.len() <= s.len() && s.subrange(0, p.len() as int) == p
}

/// `s` ends with `p`.
pub open spec fn has_suffix(s: Seq<char>, p: Seq<char>) -> bool {
    p.len() <= s.len() && s.subrange(s.len() - p.len(), s.len() as int) == p
}

/// `p` occurs in `s` starting at index `i`.
pub open spec fn occurs_at(s: Seq<char>, p: Seq<char>, i: int) -> bool {
    0 <= i && i + p.len() <= s.len() && s.subrange(i, i + p.len()) == p
}

/// `p` occurs somewhere in `s`.
pub open spec fn has_infix(s: Seq<char>, p: Seq<char>) -> bool {
    exists|i: int| #[trigger] occurs_at(s, p, i)
}

/// `s` without its first `k` characters.
pub open spec fn after(s: Seq<char>, k: int) -> Seq<char> {
    s.subrange(k, s.len() as int)
}

/// `s` begins with `p` at index 0 (checked character by character).
pub fn starts_with_chars(s: &Vec<char>, p: &Vec<char>) -> (r: bool)
    ensures
        r == has_prefix(s@, p@),
{
    occurs_at_index(s, p, 0)
}

/// `p` occurs in `s` at index `i`.
pub fn occurs_at_index(s: &Vec<char>, p: &Vec<char>, i: usize) -> (r: bool)
    ensures
        r == occurs_at(s@, p@, i as int),
{
    if i > s.len() || p.len() > s.len() - i {
        proof {
            assert(!occurs_at(s@, p@, i as int));
        }
        return false;
    }
    let mut k: usize = 0;
    let mut same = true;
    while k < p.len() && same
        invariant
            s@.len() <= usize::MAX,
            i + p@.len() <= s@.len(),
            k <= p@.len(),
            same == (forall|j: int| 0 <= j < k ==> s@[i + j] == p@[j]),
        decreases p.len() - k,
    {
        if s[i + k] != p[k] {
            same = false;
        }
        k += 1;
    }
    proof {
        if same {
            assert(s@.subrange(i as int, i + p@.len()) =~= p@);
        } else {
            let j = choose|j: int| 0 <= j < k && s@[i + j] != p@[j];
            assert(s@.subrange(i as int, i + p@.len())[j] != p@[j]);
        }
    }
    same
}

/// `p` occurs somewhere in `s`.
pub fn contains_chars(s: &Vec<char>, p: &Vec<char>) -> (r: bool)
    ensures
        r == has_infix(s@, p@),
{
    if p.len() > s.len() {
        proof {
            assert forall|i: int| !occurs_at(s@, p@, i) by {}
        }
        return false;
    }
    if p.len() == 0 {
        proof {
            assert(s@.subrange(0, 0) =~= p@);
            assert(occurs_at(s@, p@, 0));
        }
        return true;
    }
    let last = s.len() - p.len();
    let mut i: usize = 0;
    let mut found = false;
    while i <= last && !found
        invariant
            last == s@.len() - p@.len(),
            p@.len() >= 1,
            s@.len() <= usize::MAX,
            i <= last + 1,
            found ==> has_infix(s@, p@),
            !found ==> forall|j: int| 0 <= j < i ==> !#[trigger] occurs_at(s@, p@, j),
        decreases last + 1 - i,
    {
        if occurs_at_index(s, p, i) {
            found = true;
        }
        i += 1;
    }
    proof {
        if !found {
            assert forall|j: int| !#[trigger] occurs_at(s@, p@, j) by {
                if 0 <= j && j < i {
                } else if j > last {
                    assert(!occurs_at(s@, p@, j));
                }
            }
        }
    }
    found
}

/// The characters of `s` from index `start` on.
pub fn chars_after(s: &Vec<char>, start: usize) -> (r: Vec<char>)
    requires
        start <= s@.len(),
    ensures
        r@ == after(s@, start as int),
{
    let mut r: Vec<char> = Vec::new();
    let mut i = start;
    while i < s.len()
        invariant
            start <= i <= s@.len(),
            r@ == s@.subrange(start as int, i as int),
        decreases s.len() - i,
    {
        r.push(s[i]);
        i += 1;
        proof {
            assert(r@ =~= s@.subrange(start as int, i as int));
        }
    }
    r
}

/// `c` is an ASCII decimal digit.
pub open spec fn is_digit(c: char) -> bool {
    '0' <= c <= '9'
}

/// Every character of `s` is an ASCII decimal digit.
pub open spec fn all_digits(s: Seq<char>) -> bool {
    forall|i: int| 0 <= i < s.len() ==> #[trigger] is_digit(s[i])
}

/// The number that the decimal digits `s` spell.
pub open spec fn decimal_value(s: Seq<char>) -> int
    decreases s.len(),
{
    if s.len() == 0 {
        0
    } else {
        decimal_value(s.drop_last()) * 10 + (s.last() as int - '0' as int)
    }
}

/// What `str::parse::<usize>` accepts: an optional `+`, then one or more ASCII digits whose value fits.
pub open spec fn parsed_usize(s: Seq<char>) -> Option<usize> {
    let body = if s.len() > 0 && s[0] == '+' { after(s, 1) } else { s };
    if body.len() > 0 && all_digits(body) && decimal_value(body) <= usize::MAX {
        Some(decimal_value(body) as usize)
    } else {
        None
    }
}

/// The value of a prefix of a digit string is at most the value of the whole.
pub proof fn lemma_decimal_prefix_le(s: Seq<char>, k: int)
    requires
        all_digits(s),
        0 <= k <= s.len(),
    ensures
        0 <= decimal_value(s.take(k)) <= decimal_value(s),
    decreases s.len(),
{
    if s.len() == 0 {
        assert(s.take(k) =~= s);
    } else if k == s.len() {
        assert(s.take(k) =~= s);
        lemma_decimal_nonneg(s);
    } else {
        assert(s.drop_last().take(k) =~= s.take(k));
        assert(is_digit(s[s.len() - 1]));
        lemma_decimal_prefix_le(s.drop_last(), k);
    }
}

/// Digit strings have non-negative values.
pub proof fn lemma_decimal_nonneg(s: Seq<char>)
    requires
        all_digits(s),
    ensures
        decimal_value(s) >= 0,
    decreases s.len(),
{
    if s.len() > 0 {
        assert(is_digit(s[s.len() - 1]));
        lemma_decimal_nonneg(s.drop_last());
    }
}

/// Parses an unsigned decimal number as `str::parse::<usize>` does.
pub fn parse_usize(s: &Vec<char>) -> (r: Option<usize>)
    ensures
        r == parsed_usize(s@),
{
    let start: usize = if s.len() > 0 && s[0] == '+' { 1 } else { 0 };
    let ghost body = if s@.len() > 0 && s@[0] == '+' { after(s@, 1) } else { s@ };
    assert(body =~= s@.subrange(start as int, s@.len() as int));
    if start >= s.len() {
        return None;
    }
    let mut acc: usize = 0;
    let mut i = start;
    while i < s.len()
        invariant
            start <= i <= s@.len(),
            body == s@.subrange(start as int, s@.len() as int),
            body == (if s@.len() > 0 && s@[0] == '+' { after(s@, 1) } else { s@ }),
            all_digits(body.take(i - start)),
            acc as int == decimal_value(body.take(i - start)),
        decreases s.len() - i,
    {
        let c = s[i];
        proof {
            assert(body[i - start] == c);
            assert(body.take(i + 1 - start).drop_last() =~= body.take(i - start));
            assert(body.take(i + 1 - start).last() == c);
        }
        if !('0' <= c && c <= '9') {
            proof {
                assert(!is_digit(body[i - start]));
            }
            return None;
        }
        let d = (c as u32 - '0' as u32) as usize;
        proof {
            assert(all_digits(body.take(i + 1 - start)));
        }
        match acc.checked_mul(10) {
            Some(m) => match m.checked_add(d) {
                Some(v) => {
                    acc = v;
                },
                None => {
                    proof {
                        if all_digits(body) {
                            lemma_decimal_prefix_le(body, i + 1 - start);
                        }
                    }
                    return None;
                },
            },
            None => {
                proof {
                    if all_digits(body) {
                        lemma_decimal_prefix_le(body, i + 1 - start);
                    }
                }
                return None;
            },
        }
        i += 1;
    }
    proof {
        assert(body.take(i - start) =~= body);
    }
    Some(acc)
}

/// Whether `c` is whitespace as `char::is_whitespace` answers: it has the Unicode White_Space property, which
/// the tab through carriage return controls, the space, next line, no-break space, the ogham space mark, the
/// spaces U+2000 to U+200A, the line and paragraph separators, the narrow no-break space, the medium
/// mathematical space and the ideographic space have.
pub open spec fn is_ws(c: char) -> bool {
    let v = c as u32;
    ||| 9 <= v <= 13
    ||| v == 0x20
    ||| v == 0x85
    ||| v == 0xA0
    ||| v == 0x1680
    ||| 0x2000 <= v <= 0x200A
    ||| v == 0x2028
    ||| v == 0x2029
    ||| v == 0x202F
    ||| v == 0x205F
    ||| v == 0x3000
}

/// Whether `c` is whitespace.
pub fn is_whitespace(c: char) -> (r: bool)
    ensures
        r == is_ws(c),
{
    let v = c as u32;
    (9 <= v && v <= 13) || v == 0x20 || v == 0x85 || v == 0xA0 || v == 0x1680 || (0x2000 <= v && v <= 0x200A)
        || v == 0x2028 || v == 0x2029 || v == 0x202F || v == 0x205F || v == 0x3000
}

/// `s` without its leading whitespace.
pub open spec fn trim_start_ws(s: Seq<char>) -> Seq<char>
    decreases s.len(),
{
    if s.len() > 0 && is_ws(s[0]) {
        trim_start_ws(after(s, 1))
    } else {
        s
    }
}

/// `s` without its trailing whitespace.
pub open spec fn trim_end_ws(s: Seq<char>) -> Seq<char>
    decreases s.len(),
{
    if s.len() > 0 && is_ws(s.last()) {
        trim_end_ws(s.drop_last())
    } else {
        s
    }
}

/// `s` without leading and trailing whitespace, as `str::trim` gives it.
pub open spec fn trimmed(s: Seq<char>) -> Seq<char> {
    trim_end_ws(trim_start_ws(s))
}

/// `s` without leading and trailing whitespace.
pub fn trim_chars(s: &Vec<char>) -> (r: Vec<char>)
    ensures
        r@ == trimmed(s@),
{
    let n = s.len();
    let mut start: usize = 0;
    proof {
        assert(s@.subrange(0, n as int) =~= s@);
    }
    while start < n && is_whitespace(s[start])
        invariant
            n == s@.len(),
            start <= n,
            trim_start_ws(s@) == trim_start_ws(s@.subrange(start as int, n as int)),
        decreases n - start,
    {
        proof {
            assert(after(s@.subrange(start as int, n as int), 1) =~= s@.subrange(start + 1, n as int));
        }
        start += 1;
    }
    let mut end: usize = n;
    while end > start && is_whitespace(s[end - 1])
        invariant
            n == s@.len(),
            start <= end <= n,
            start < n ==> !is_ws(s@[start as int]),
            trim_end_ws(s@.subrange(start as int, n as int)) == trim_end_ws(s@.subrange(start as int, end as int)),
        decreases end - start,
    {
        proof {
            assert(s@.subrange(start as int, end as int).drop_last() =~= s@.subrange(start as int, end - 1));
        }
        end -= 1;
    }
    let mut r: Vec<char> = Vec::new();
    let mut i = start;
    while i < end
        invariant
            start <= i <= end <= n,
            n == s@.len(),
            r@ == s@.subrange(start as int, i as int),
        decreases end - i,
    {
        r.push(s[i]);
        i += 1;
        proof {
            assert(r@ =~= s@.subrange(start as int, i as int));
        }
    }
    r
}

/// `s` with every occurrence of `pat` (scanning left to right, without overlaps) replaced by `rep`.
pub open spec fn replaced(s: Seq<char>, pat: Seq<char>, rep: Seq<char>) -> Seq<char>
    decreases s.len(),
{
    if s.len() == 0 || pat.len() == 0 {
        s
    } else if has_prefix(s, pat) {
        rep + replaced(after(s, pat.len() as int), pat, rep)
    } else {
        seq![s[0]] + replaced(after(s, 1), pat, rep)
    }
}

/// Replaces every occurrence of `pat` in `s` by `rep`, as `str::replace` does.
pub fn replace_chars(s: &Vec<char>, pat: &Vec<char>, rep: &Vec<char>) -> (r: Vec<char>)
    requires
        pat@.len() > 0,
    ensures
        r@ == replaced(s@, pat@, rep@),
{
    let n = s.len();
    let mut out: Vec<char> = Vec::new();
    let mut i: usize = 0;
    proof {
        assert(s@.subrange(0, n as int) =~= s@);
        assert(out@ + replaced(s@, pat@, rep@) =~= replaced(s@, pat@, rep@));
    }
    while i < n
        invariant
            n == s@.len(),
            i <= n,
            pat@.len() > 0,
            replaced(s@, pat@, rep@) == out@ + replaced(s@.subrange(i as int, n as int), pat@, rep@),
        decreases n - i,
    {
        let ghost rest = s@.subrange(i as int, n as int);
        let ghost before = out@;
        if occurs_at_index(s, pat, i) {
            proof {
                assert(rest.subrange(0, pat@.len() as int) =~= s@.subrange(i as int, i + pat@.len()));
                assert(after(rest, pat@.len() as int) =~= s@.subrange(i + pat@.len(), n as int));
            }
            let mut k: usize = 0;
            while k < rep.len()
                invariant
                    k <= rep@.len(),
                    out@ == before + rep@.take(k as int),
                decreases rep.len() - k,
            {
                out.push(rep[k]);
                k += 1;
                proof {
                    assert(out@ =~= before + rep@.take(k as int));
                }
            }
            proof {
                assert(rep@.take(rep@.len() as int) =~= rep@);
                assert(before + (rep@ + replaced(s@.subrange(i + pat@.len(), n as int), pat@, rep@)) =~= out@
                    + replaced(s@.subrange(i + pat@.len(), n as int), pat@, rep@));
            }
            i = i + pat.len();
        } else {
            proof {
                if pat@.len() <= rest.len() {
                    assert(rest.subrange(0, pat@.len() as int) =~= s@.subrange(i as int, i + pat@.len()));
                }
                assert(after(rest, 1) =~= s@.subrange(i + 1, n as int));
            }
            out.push(s[i]);
            proof {
                assert(before + (seq![s@[i as int]] + replaced(s@.subrange(i + 1, n as int), pat@, rep@)) =~= out@
                    + replaced(s@.subrange(i + 1, n as int), pat@, rep@));
            }
            i = i + 1;
        }
    }
    proof {
        assert(s@.subrange(n as int, n as int) =~= Seq::<char>::empty());
        assert(out@ + Seq::<char>::empty() =~= out@);
    }
    out
}

/// `i` is where `p` first occurs in `s`.
pub open spec fn is_first_occurrence(s: Seq<char>, p: Seq<char>, i: int) -> bool {
    occurs_at(s, p, i) && forall|j: int| 0 <= j < i ==> !#[trigger] occurs_at(s, p, j)
}

/// Where `p` first occurs in `s`, as `str::find` reports it (counted in characters).
pub open spec fn find_first(s: Seq<char>, p: Seq<char>) -> Option<int> {
    if has_infix(s, p) {
        Some(choose|i: int| is_first_occurrence(s, p, i))
    } else {
        None
    }
}

/// A first occurrence is the one `find_first` reports.
pub proof fn lemma_find_first_is(s: Seq<char>, p: Seq<char>, i: int)
    requires
        is_first_occurrence(s, p, i),
    ensures
        find_first(s, p) == Some(i),
{
    assert(has_infix(s, p));
    let k = choose|k: int| is_first_occurrence(s, p, k);
    assert(is_first_occurrence(s, p, k));
    if k < i {
        assert(!occurs_at(s, p, k));
    } else if i < k {
        assert(!occurs_at(s, p, i));
    }
}

/// Finds where `p` first occurs in `s`.
pub fn find_chars(s: &Vec<char>, p: &Vec<char>) -> (r: Option<usize>)
    ensures
        match r {
            Some(i) => find_first(s@, p@) == Some(i as int) && is_first_occurrence(s@, p@, i as int),
            None => find_first(s@, p@) is None && !has_infix(s@, p@),
        },
{
    if p.len() > s.len() {
        proof {
            assert forall|i: int| !#[trigger] occurs_at(s@, p@, i) by {}
        }
        return None;
    }
    let last = s.len() - p.len();
    let mut i: usize = 0;
    while i <= last
        invariant
            last == s@.len() - p@.len(),
            s@.len() <= usize::MAX,
            forall|j: int| 0 <= j < i ==> !#[trigger] occurs_at(s@, p@, j),
        decreases last + 1 - i,
    {
        if occurs_at_index(s, p, i) {
            proof {
                lemma_find_first_is(s@, p@, i as int);
            }
            return Some(i);
        }
        if i == last {
            proof {
                assert forall|j: int| !#[trigger] occurs_at(s@, p@, j) by {
                    if 0 <= j && j <= last {
                    } else if j > last {
                        assert(!occurs_at(s@, p@, j));
                    }
                }
            }
            return None;
        }
        i += 1;
    }
    proof {
        assert forall|j: int| !#[trigger] occurs_at(s@, p@, j) by {
            if j > last {
                assert(!occurs_at(s@, p@, j));
            }
        }
    }
    None
}

/// The decimal digits of `n`, most significant first, as `{}` formats it.
pub open spec fn decimal_text(n: nat) -> Seq<char>
    decreases n,
{
    if n < 10 {
        seq![(n + 48) as char]
    } else {
        decimal_text(n / 10).push(((n % 10) + 48) as char)
    }
}

/// Formats `n` in decimal.
pub fn decimal_chars(n: usize) -> (r: Vec<char>)
    ensures
        r@ == decimal_text(n as nat),
    decreases n,
{
    if n < 10 {
        let d = ((n as u8) + 48) as char;
        vec![d]
    } else {
        let mut r = decimal_chars(n / 10);
        let d = (((n % 10) as u8) + 48) as char;
        r.push(d);
        r
    }
}

/// `a` followed by `b`.
pub fn concat_chars(a: &Vec<char>, b: &Vec<char>) -> (r: Vec<char>)
    ensures
        r@ == a@ + b@,
{
    let mut r: Vec<char> = Vec::new();
    let mut i: usize = 0;
    while i < a.len()
        invariant
            i <= a@.len(),
            r@ == a@.take(i as int),
        decreases a.len() - i,
    {
        r.push(a[i]);
        i += 1;
        proof {
            assert(r@ =~= a@.take(i as int));
        }
    }
    let mut j: usize = 0;
    while j < b.len()
        invariant
            i == a@.len(),
            j <= b@.len(),
            r@ == a@ + b@.take(j as int),
        decreases b.len() - j,
    {
        r.push(b[j]);
        j += 1;
        proof {
            assert(r@ =~= a@ + b@.take(j as int));
        }
    }
    proof {
        assert(a@.take(i as int) =~= a@);
        assert(b@.take(j as int) =~= b@);
    }
    r
}

/// Appends `piece` to `out`.
pub fn append_chars(out: &mut Vec<char>, piece: &Vec<char>)
    ensures
        final(out)@ == old(out)@ + piece@,
{
    let mut j: usize = 0;
    while j < piece.len()
        invariant
            j <= piece@.len(),
            out@ == old(out)@ + piece@.take(j as int),
        decreases piece.len() - j,
    {
        out.push(piece[j]);
        j += 1;
        proof {
            assert(out@ =~= old(out)@ + piece@.take(j as int));
        }
    }
    proof {
        assert(piece@.take(j as int) =~= piece@);
    }
}

/// The index of the first character of `s` that is one of `seps`.
pub open spec fn first_sep(s: Seq<char>, seps: Seq<char>) -> Option<int>
    decreases s.len(),
{
    if s.len() == 0 {
        None
    } else if seps.contains(s[0]) {
        Some(0)
    } else {
        match first_sep(after(s, 1), seps) {
            Some(i) => Some(i + 1),
            None => None,
        }
    }
}

/// `first_sep` finds the first separator, and none when there is none.
pub proof fn lemma_first_sep(s: Seq<char>, seps: Seq<char>, k: int)
    requires
        0 <= k <= s.len(),
        forall|j: int| 0 <= j < k ==> !seps.contains(#[trigger] s[j]),
    ensures
        k < s.len() && seps.contains(s[k]) ==> first_sep(s, seps) == Some(k),
        k == s.len() ==> first_sep(s, seps) is None,
    decreases k,
{
    if k > 0 {
        let t = after(s, 1);
        assert forall|j: int| 0 <= j < k - 1 implies !seps.contains(#[trigger] t[j]) by {
            assert(t[j] == s[j + 1]);
        }
        lemma_first_sep(t, seps, k - 1);
        assert(!seps.contains(s[0]));
        if k < s.len() {
            assert(t[k - 1] == s[k]);
        }
    } else if s.len() == 0 {
    }
}

/// `s` split at every character that is one of `seps`, as `str::split` with a set of characters splits it
/// (empty pieces included).
pub open spec fn split_on(s: Seq<char>, seps: Seq<char>) -> Seq<Seq<char>>
    decreases s.len(),
{
    match first_sep(s, seps) {
        Some(i) => if 0 <= i < s.len() {
            seq![s.take(i)] + split_on(after(s, i + 1), seps)
        } else {
            seq![s]
        },
        None => seq![s],
    }
}

/// `s` split at the first `c`, as `str::split_once` does.
pub open spec fn split_once_at(s: Seq<char>, c: char) -> Option<(Seq<char>, Seq<char>)> {
    match first_sep(s, seq![c]) {
        Some(i) => if 0 <= i < s.len() {
            Some((s.take(i), after(s, i + 1)))
        } else {
            None
        },
        None => None,
    }
}

/// The index of the first character of `s` that is one of `seps`.
pub fn find_sep(s: &Vec<char>, seps: &Vec<char>) -> (r: Option<usize>)
    ensures
        match r {
            Some(i) => first_sep(s@, seps@) == Some(i as int) && i < s@.len() && seps@.contains(s@[i as int]),
            None => first_sep(s@, seps@) is None,
        },
{
    let mut k: usize = 0;
    while k < s.len()
        invariant
            k <= s@.len(),
            forall|j: int| 0 <= j < k ==> !seps@.contains(#[trigger] s@[j]),
        decreases s.len() - k,
    {
        let c = s[k];
        let mut m: usize = 0;
        let mut hit = false;
        while m < seps.len() && !hit
            invariant
                m <= seps@.len(),
                hit ==> seps@.contains(c),
                !hit ==> forall|j: int| 0 <= j < m ==> seps@[j] != c,
            decreases seps.len() - m,
        {
            if seps[m] == c {
                hit = true;
                proof {
                    assert(seps@[m as int] == c);
                }
            }
            m += 1;
        }
        if hit {
            proof {
                lemma_first_sep(s@, seps@, k as int);
            }
            return Some(k);
        }
        proof {
            assert(!seps@.contains(c)) by {
                if seps@.contains(c) {
                    let j = choose|j: int| 0 <= j < seps@.len() && seps@[j] == c;
                    assert(seps@[j] != c);
                }
            }
        }
        k += 1;
    }
    proof {
        lemma_first_sep(s@, seps@, k as int);
    }
    None
}

/// Splits `s` at every character that is one of `seps`.
pub fn split_chars(s: &Vec<char>, seps: &Vec<char>) -> (r: Vec<Vec<char>>)
    ensures
        r@.map_values(|v: Vec<char>| v@) == split_on(s@, seps@),
{
    let mut out: Vec<Vec<char>> = Vec::new();
    let mut rest = chars_after(s, 0);
    proof {
        assert(after(s@, 0) =~= s@);
        assert(split_on(s@, seps@) =~= out@.map_values(|v: Vec<char>| v@) + split_on(rest@, seps@));
    }
    let mut done = false;
    while !done
        invariant
            !done ==> split_on(s@, seps@) == out@.map_values(|v: Vec<char>| v@) + split_on(rest@, seps@),
            done ==> split_on(s@, seps@) == out@.map_values(|v: Vec<char>| v@),
        decreases rest@.len(), if done { 0int } else { 1int },
    {
        let ghost before = out@.map_values(|v: Vec<char>| v@);
        match find_sep(&rest, seps) {
            None => {
                let piece = chars_after(&rest, 0);
                proof {
                    assert(after(rest@, 0) =~= rest@);
                }
                out.push(piece);
                proof {
                    assert(out@.map_values(|v: Vec<char>| v@) =~= before + seq![rest@]);
                }
                done = true;
            },
            Some(i) => {
                let mut piece: Vec<char> = Vec::new();
                let mut k: usize = 0;
                while k < i
                    invariant
                        k <= i < rest@.len(),
                        piece@ == rest@.take(k as int),
                    decreases i - k,
                {
                    piece.push(rest[k]);
                    k += 1;
                    proof {
                        assert(piece@ =~= rest@.take(k as int));
                    }
                }
                let rn = rest.len();
                assert(i < rn);
                let next = chars_after(&rest, i + 1);
                let ghost old_rest = rest@;
                out.push(piece);
                proof {
                    assert(out@.map_values(|v: Vec<char>| v@) =~= before + seq![piece@]);
                    assert(split_on(old_rest, seps@) == seq![piece@] + split_on(next@, seps@));
                    assert(before + (seq![piece@] + split_on(next@, seps@)) =~= before + seq![piece@] + split_on(
                        next@,
                        seps@,
                    ));
                }
                rest = next;
            },
        }
    }
    out
}

/// Splits `s` at the first `c`.
pub fn split_once_chars(s: &Vec<char>, c: char) -> (r: Option<(Vec<char>, Vec<char>)>)
    ensures
        match split_once_at(s@, c) {
            Some((a, b)) => r matches Some((x, y)) && x@ == a && y@ == b,
            None => r is None,
        },
{
    let seps = vec![c];
    assert(seps@ =~= seq![c]);
    match find_sep(s, &seps) {
        None => None,
        Some(i) => {
            let mut head: Vec<char> = Vec::new();
            let mut k: usize = 0;
            while k < i
                invariant
                    k <= i < s@.len(),
                    head@ == s@.take(k as int),
                decreases i - k,
            {
                head.push(s[k]);
                k += 1;
                proof {
                    assert(head@ =~= s@.take(k as int));
                }
            }
            let sn = s.len();
            assert(i < sn);
            let tail = chars_after(s, i + 1);
            Some((head, tail))
        },
    }
}

} // verus!
