//! Small verified string helpers: slice equality and decimal rendering.

use vstd::prelude::*;

verus! {

/// Character-by-character equality of two string slices.
#[verifier::loop_isolation(false)]
pub fn str_eq(a: &str, b: &str) -> (r: bool)
    ensures
        r == (a@ == b@),
{
    let a_len = a.unicode_len();
    let b_len = b.unicode_len();
    if a_len != b_len {
        proof {
            assert(a@ != b@);
        }
        return false;
    }
    let mut i: usize = 0;
    while i < a_len
        invariant
            i <= a_len,
            forall|j: int| 0 <= j < i ==> a@[j] == b@[j],
        decreases a_len - i,
    {
        if a.get_char(i) != b.get_char(i) {
            return false;
        }
        i += 1;
    }
    proof {
        assert(a@ =~= b@);
    }
    true
}

/// Index of the first occurrence of `c` in `s`, or `-1` when `s` does
/// not contain it.
pub open spec fn spec_find_char(s: Seq<char>, c: char) -> int
    decreases s.len(),
{
    if s.len() == 0 {
        -1
    } else if s[0] == c {
        0
    } else {
        let r = spec_find_char(s.drop_first(), c);
        if r < 0 {
            -1
        } else {
            r + 1
        }
    }
}

/// `spec_find_char` names the least index holding `c`, or `-1` when
/// there is none.
pub proof fn lemma_find_char_props(s: Seq<char>, c: char)
    ensures
        ({
            let r = spec_find_char(s, c);
            &&& (r == -1 <==> forall|j: int| 0 <= j < s.len() ==> s[j] != c)
            &&& (r != -1 ==> 0 <= r < s.len() && s[r] == c && forall|j: int|
                0 <= j < r ==> s[j] != c)
        }),
    decreases s.len(),
{
    if s.len() > 0 && s[0] != c {
        let rest = s.drop_first();
        lemma_find_char_props(rest, c);
        assert(forall|j: int| 0 <= j < rest.len() ==> rest[j] == s[j + 1]);
        let r_rest = spec_find_char(rest, c);
        if r_rest == -1 {
            assert(spec_find_char(s, c) == -1);
            assert(forall|j: int| 0 <= j < s.len() ==> s[j] != c) by {
                assert(forall|j: int| 1 <= j < s.len() ==> s[j] == rest[j - 1]);
            }
        } else {
            let r = spec_find_char(s, c);
            assert(r == r_rest + 1);
            assert(s[r] == rest[r_rest]);
            assert(forall|j: int| 1 <= j < r ==> s[j] == rest[j - 1]);
        }
    }
}

/// Index of the first occurrence of `c` in `s`, if any.
#[verifier::loop_isolation(false)]
pub fn find_char(s: &str, c: char) -> (r: Option<usize>)
    ensures
        match r {
            Option::Some(i) => spec_find_char(s@, c) == i,
            Option::None => spec_find_char(s@, c) == -1,
        },
{
    let len = s.unicode_len();
    let mut i: usize = 0;
    while i < len
        invariant
            i <= len,
            forall|j: int| 0 <= j < i ==> s@[j] != c,
        decreases len - i,
    {
        if s.get_char(i) == c {
            proof {
                lemma_find_char_props(s@, c);
            }
            return Some(i);
        }
        i += 1;
    }
    proof {
        lemma_find_char_props(s@, c);
    }
    None
}

/// Whether `pat` occurs in `s` starting at index `k`.
pub open spec fn spec_has_sub_at(s: Seq<char>, pat: Seq<char>, k: int) -> bool {
    0 <= k && k + pat.len() <= s.len() && s.subrange(k, k + pat.len()) == pat
}

/// Whether `pat` occurs anywhere in `s`.
pub open spec fn spec_contains_sub(s: Seq<char>, pat: Seq<char>) -> bool {
    exists|k: int| spec_has_sub_at(s, pat, k)
}

/// Whether `pat` occurs in `s` starting at index `k`.
#[verifier::loop_isolation(false)]
fn matches_at(s: &str, pat: &str, k: usize, s_len: usize, pat_len: usize) -> (r: bool)
    requires
        s_len == s@.len(),
        pat_len == pat@.len(),
        k + pat_len <= s_len,
    ensures
        r == spec_has_sub_at(s@, pat@, k as int),
{
    let mut t: usize = 0;
    while t < pat_len
        invariant
            t <= pat_len,
            forall|x: int| 0 <= x < t ==> s@[k + x] == pat@[x],
        decreases pat_len - t,
    {
        if s.get_char(k + t) != pat.get_char(t) {
            proof {
                assert(s@.subrange(k as int, k + pat@.len()) != pat@) by {
                    assert(s@.subrange(k as int, k + pat@.len())[t as int] == s@[k + t]);
                }
            }
            return false;
        }
        t += 1;
    }
    proof {
        assert(s@.subrange(k as int, k + pat@.len()) =~= pat@);
    }
    true
}

/// Whether `pat` occurs anywhere in `s`.
#[verifier::loop_isolation(false)]
pub fn contains_sub(s: &str, pat: &str) -> (r: bool)
    ensures
        r == spec_contains_sub(s@, pat@),
{
    let n = s.unicode_len();
    let m = pat.unicode_len();
    if m > n {
        proof {
            assert(forall|k: int| !spec_has_sub_at(s@, pat@, k));
        }
        return false;
    }
    if m == 0 {
        proof {
            assert(s@.subrange(0, 0) =~= pat@);
            assert(spec_has_sub_at(s@, pat@, 0));
        }
        return true;
    }
    let mut k: usize = 0;
    while k <= n - m
        invariant
            0 < m <= n,
            k <= n - m + 1,
            forall|j: int| 0 <= j < k ==> !spec_has_sub_at(s@, pat@, j),
        decreases n - k,
    {
        if matches_at(s, pat, k, n, m) {
            return true;
        }
        k += 1;
    }
    proof {
        assert(forall|j: int| spec_has_sub_at(s@, pat@, j) ==> 0 <= j <= n - m);
    }
    false
}

/// `s` with every occurrence of `pat` replaced by `rep`, scanning left
/// to right without re-examining replacements. An empty pattern replaces
/// nothing.
pub open spec fn spec_replace_all(s: Seq<char>, pat: Seq<char>, rep: Seq<char>) -> Seq<char>
    decreases s.len(),
{
    if s.len() == 0 {
        Seq::empty()
    } else if 0 < pat.len() <= s.len() && s.subrange(0, pat.len() as int) == pat {
        rep + spec_replace_all(s.subrange(pat.len() as int, s.len() as int), pat, rep)
    } else {
        seq![s[0]] + spec_replace_all(s.drop_first(), pat, rep)
    }
}

/// Replaces every occurrence of `pat` in `s` by `rep`, scanning left to
/// right.
#[verifier::loop_isolation(false)]
pub fn replace_all(s: &str, pat: &str, rep: &str) -> (r: String)
    ensures
        r@ == spec_replace_all(s@, pat@, rep@),
{
    let n = s.unicode_len();
    let m = pat.unicode_len();
    let mut out = String::new();
    let mut i: usize = 0;
    proof {
        assert(s@.subrange(0, n as int) =~= s@);
        assert(out@ + spec_replace_all(s@.subrange(0, n as int), pat@, rep@) =~= spec_replace_all(
            s@,
            pat@,
            rep@,
        ));
    }
    while i < n
        invariant
            i <= n,
            spec_replace_all(s@, pat@, rep@) == out@ + spec_replace_all(
                s@.subrange(i as int, n as int),
                pat@,
                rep@,
            ),
        decreases n - i,
    {
        let ghost suffix = s@.subrange(i as int, n as int);
        let matched = if m > 0 && m <= n - i {
            matches_at(s, pat, i, n, m)
        } else {
            false
        };
        if matched {
            out.append(rep);
            proof {
                let next_suffix = s@.subrange(i as int + m, n as int);
                assert(suffix.subrange(0, m as int) =~= s@.subrange(i as int, i as int + m));
                assert(suffix.subrange(0, m as int) =~= pat@);
                assert(suffix.subrange(m as int, suffix.len() as int) =~= next_suffix);
                assert(spec_replace_all(suffix, pat@, rep@) =~= rep@ + spec_replace_all(
                    next_suffix,
                    pat@,
                    rep@,
                ));
            }
            i += m;
        } else {
            let piece = s.substring_char(i, i + 1);
            out.append(piece);
            proof {
                let next_suffix = s@.subrange(i as int + 1, n as int);
                assert(suffix.len() > 0);
                assert(suffix[0] == s@[i as int]);
                assert(piece@ =~= seq![suffix[0]]);
                assert(suffix.drop_first() =~= next_suffix);
                if 0 < m <= n - i {
                    assert(suffix.subrange(0, m as int) =~= s@.subrange(i as int, i as int + m));
                    assert(suffix.subrange(0, m as int) != pat@);
                }
                assert(spec_replace_all(suffix, pat@, rep@) =~= seq![suffix[0]]
                    + spec_replace_all(next_suffix, pat@, rep@));
            }
            i += 1;
        }
    }
    proof {
        assert(s@.subrange(n as int, n as int).len() == 0);
        assert(spec_replace_all(s@.subrange(n as int, n as int), pat@, rep@)
            =~= Seq::<char>::empty());
        assert(out@ + Seq::<char>::empty() =~= out@);
    }
    out
}

/// The lines of a character sequence: segments separated by `'\n'`, a
/// trailing segment kept only when non-empty (so a trailing newline adds
/// no empty line).
pub open spec fn spec_split_lines(s: Seq<char>) -> Seq<Seq<char>>
    decreases s.len(),
{
    if s.len() == 0 {
        Seq::empty()
    } else if s[0] == '\n' {
        seq![Seq::<char>::empty()] + spec_split_lines(s.drop_first())
    } else {
        let rest = spec_split_lines(s.drop_first());
        if rest.len() == 0 {
            seq![s]
        } else {
            seq![seq![s[0]] + rest[0]] + rest.drop_first()
        }
    }
}

/// The views of a sequence of strings.
pub open spec fn spec_line_views(ss: Seq<String>) -> Seq<Seq<char>> {
    ss.map(|i: int, x: String| x@)
}

/// Prepending an unfinished segment to a line list: it extends the
/// first line, or stands alone when there are no lines and it is not
/// empty.
pub open spec fn spec_join_partial(partial: Seq<char>, rest: Seq<Seq<char>>) -> Seq<Seq<char>> {
    if rest.len() == 0 {
        if partial.len() == 0 {
            Seq::empty()
        } else {
            seq![partial]
        }
    } else {
        seq![partial + rest[0]] + rest.drop_first()
    }
}

/// Splits a string into its lines.
#[verifier::loop_isolation(false)]
pub fn split_lines(s: &str) -> (lines: Vec<String>)
    ensures
        spec_line_views(lines@) == spec_split_lines(s@),
{
    let len = s.unicode_len();
    let mut done: Vec<String> = Vec::new();
    let mut line_start: usize = 0;
    let mut i: usize = 0;
    proof {
        assert(s@.subrange(0, len as int) =~= s@);
        assert(s@.subrange(0, 0).len() == 0);
        assert(spec_line_views(done@) =~= Seq::<Seq<char>>::empty());
        let all = spec_split_lines(s@);
        if all.len() == 0 {
            assert(spec_join_partial(s@.subrange(0, 0), all) =~= all);
        } else {
            assert(s@.subrange(0, 0) + all[0] =~= all[0]);
            assert(spec_join_partial(s@.subrange(0, 0), all) =~= all);
        }
    }
    while i < len
        invariant
            line_start <= i <= len,
            forall|j: int| line_start <= j < i ==> s@[j] != '\n',
            spec_split_lines(s@) == spec_line_views(done@) + spec_join_partial(
                s@.subrange(line_start as int, i as int),
                spec_split_lines(s@.subrange(i as int, len as int)),
            ),
        decreases len - i,
    {
        let ghost partial = s@.subrange(line_start as int, i as int);
        let ghost suffix = s@.subrange(i as int, len as int);
        let ghost next_suffix = s@.subrange(i as int + 1, len as int);
        proof {
            assert(suffix.len() > 0);
            assert(suffix[0] == s@[i as int]);
            assert(suffix.drop_first() =~= next_suffix);
        }
        if s.get_char(i) == '\n' {
            let piece = s.substring_char(line_start, i).to_owned();
            let ghost done_pre = done@;
            done.push(piece);
            proof {
                assert(spec_line_views(done@) =~= spec_line_views(done_pre).push(partial));
                assert(spec_split_lines(suffix) =~= seq![Seq::<char>::empty()] + spec_split_lines(
                    next_suffix,
                ));
                assert(spec_join_partial(partial, spec_split_lines(suffix)) =~= seq![partial]
                    + spec_split_lines(next_suffix));
                let next_partial = s@.subrange(i as int + 1, i as int + 1);
                assert(next_partial.len() == 0);
                assert(spec_join_partial(next_partial, spec_split_lines(next_suffix))
                    =~= spec_split_lines(next_suffix));
                assert(spec_line_views(done@) + spec_join_partial(
                    next_partial,
                    spec_split_lines(next_suffix),
                ) =~= spec_line_views(done_pre) + spec_join_partial(
                    partial,
                    spec_split_lines(suffix),
                ));
            }
            line_start = i + 1;
        } else {
            proof {
                let next_partial = s@.subrange(line_start as int, i as int + 1);
                assert(next_partial =~= partial.push(s@[i as int]));
                let rest = spec_split_lines(next_suffix);
                if rest.len() == 0 {
                    assert(next_suffix.len() == 0);
                    assert(i + 1 == len);
                    assert(spec_split_lines(suffix) =~= seq![suffix]);
                    assert(partial + suffix =~= s@.subrange(line_start as int, len as int));
                    assert(next_partial =~= s@.subrange(line_start as int, len as int));
                    assert(spec_join_partial(partial, spec_split_lines(suffix)) =~= seq![
                        next_partial,
                    ]);
                    assert(spec_join_partial(next_partial, rest) =~= seq![next_partial]);
                } else {
                    assert(spec_split_lines(suffix) =~= seq![seq![suffix[0]] + rest[0]]
                        + rest.drop_first());
                    assert(partial + (seq![suffix[0]] + rest[0]) =~= next_partial + rest[0]);
                    assert(spec_join_partial(partial, spec_split_lines(suffix))
                        =~= spec_join_partial(next_partial, rest));
                }
            }
        }
        i += 1;
    }
    proof {
        assert(s@.subrange(len as int, len as int).len() == 0);
        assert(spec_split_lines(s@.subrange(len as int, len as int)) =~= Seq::<Seq<char>>::empty());
    }
    if line_start < len {
        let piece = s.substring_char(line_start, len).to_owned();
        let ghost done_pre = done@;
        let ghost partial = s@.subrange(line_start as int, len as int);
        done.push(piece);
        proof {
            assert(spec_line_views(done@) =~= spec_line_views(done_pre).push(partial));
            assert(spec_join_partial(partial, Seq::<Seq<char>>::empty()) =~= seq![partial]);
            assert(spec_line_views(done@) =~= spec_line_views(done_pre) + seq![partial]);
        }
    } else {
        proof {
            let partial = s@.subrange(line_start as int, len as int);
            assert(partial.len() == 0);
            assert(spec_join_partial(partial, Seq::<Seq<char>>::empty())
                =~= Seq::<Seq<char>>::empty());
        }
    }
    done
}

/// The decimal digit character for a value below ten.
pub open spec fn spec_digit_char(d: int) -> char {
    if d == 0 {
        '0'
    } else if d == 1 {
        '1'
    } else if d == 2 {
        '2'
    } else if d == 3 {
        '3'
    } else if d == 4 {
        '4'
    } else if d == 5 {
        '5'
    } else if d == 6 {
        '6'
    } else if d == 7 {
        '7'
    } else if d == 8 {
        '8'
    } else {
        '9'
    }
}

/// Decimal representation of a non-negative integer, most significant
/// digit first.
pub open spec fn spec_u64_text(n: int) -> Seq<char>
    decreases n,
{
    if n <= 0 {
        seq![spec_digit_char(0)]
    } else if n < 10 {
        seq![spec_digit_char(n)]
    } else {
        spec_u64_text(n / 10) + seq![spec_digit_char(n % 10)]
    }
}

fn digit_str(d: u64) -> (s: &'static str)
    requires
        d < 10,
    ensures
        s@ == seq![spec_digit_char(d as int)],
{
    proof {
        reveal_strlit("0");
        reveal_strlit("1");
        reveal_strlit("2");
        reveal_strlit("3");
        reveal_strlit("4");
        reveal_strlit("5");
        reveal_strlit("6");
        reveal_strlit("7");
        reveal_strlit("8");
        reveal_strlit("9");
    }
    let s = if d == 0 {
        "0"
    } else if d == 1 {
        "1"
    } else if d == 2 {
        "2"
    } else if d == 3 {
        "3"
    } else if d == 4 {
        "4"
    } else if d == 5 {
        "5"
    } else if d == 6 {
        "6"
    } else if d == 7 {
        "7"
    } else if d == 8 {
        "8"
    } else {
        "9"
    };
    proof {
        assert(s@ =~= seq![spec_digit_char(d as int)]);
    }
    s
}

/// The digit characters named by a sequence of digit values.
pub open spec fn spec_digit_chars(digits: Seq<u64>) -> Seq<char> {
    digits.map(|i: int, d: u64| spec_digit_char(d as int))
}

/// Renders a number in decimal.
#[verifier::loop_isolation(false)]
pub fn u64_to_string(n: u64) -> (r: String)
    ensures
        r@ == spec_u64_text(n as int),
{
    let mut digits: Vec<u64> = Vec::new();
    let mut rest: u64 = n;
    if rest == 0 {
        digits.push(0);
        proof {
            assert(spec_digit_chars(digits@) =~= spec_u64_text(0));
        }
    }
    while rest > 0
        invariant
            forall|j: int| 0 <= j < digits@.len() ==> digits@[j] < 10,
            rest > 0 ==> spec_u64_text(n as int) == spec_u64_text(rest as int) + spec_digit_chars(
                digits@,
            ),
            rest == 0 ==> spec_u64_text(n as int) == spec_digit_chars(digits@),
        decreases rest,
    {
        let d = rest % 10;
        let ghost old_digits = digits@;
        let ghost old_rest = rest as int;
        digits.insert(0, d);
        rest = rest / 10;
        proof {
            assert(spec_digit_chars(digits@) =~= seq![spec_digit_char(old_rest % 10)]
                + spec_digit_chars(old_digits));
            if old_rest >= 10 {
                assert(spec_u64_text(old_rest) == spec_u64_text(old_rest / 10) + seq![
                    spec_digit_char(old_rest % 10),
                ]);
                assert(spec_u64_text(old_rest) + spec_digit_chars(old_digits) =~= spec_u64_text(
                    old_rest / 10,
                ) + spec_digit_chars(digits@));
            } else {
                assert(spec_u64_text(old_rest) =~= seq![spec_digit_char(old_rest % 10)]);
                assert(spec_u64_text(old_rest) + spec_digit_chars(old_digits) =~= spec_digit_chars(
                    digits@,
                ));
            }
        }
    }
    let mut out = String::new();
    let len = digits.len();
    let mut i: usize = 0;
    while i < len
        invariant
            i <= len,
            out@ == spec_digit_chars(digits@.subrange(0, i as int)),
        decreases len - i,
    {
        let piece = digit_str(digits[i]);
        out.append(piece);
        proof {
            assert(out@ =~= spec_digit_chars(digits@.subrange(0, i as int + 1)));
        }
        i += 1;
    }
    proof {
        assert(digits@.subrange(0, len as int) =~= digits@);
    }
    out
}

} // verus!
