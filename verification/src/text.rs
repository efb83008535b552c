//! Character-level text utilities: conversions between `String`/`&str` and
//! `Vec<char>`, whitespace handling, tokenization, prefix tests and line
//! splitting. All contracts are stated over `Seq<char>` views.

use vstd::prelude::*;
use vstd::std_specs::iter::IteratorSpec;

verus! {

broadcast use vstd::string::next_postcondition, vstd::string::axiom_spec_iter;

/// The whitespace characters the scanner recognizes: space, tab,
/// carriage return and newline.
pub open spec fn is_ws(c: char) -> bool {
    c == ' ' || c == '\t' || c == '\r' || c == '\n'
}

/// Executable mirror of `is_ws`.
pub fn is_ws_char(c: char) -> (r: bool)
    ensures
        r == is_ws(c),
{
    c == ' ' || c == '\t' || c == '\r' || c == '\n'
}

/// Collects the characters of a string slice, in order.
pub fn str_to_chars(s: &str) -> (v: Vec<char>)
    ensures
        v@ == s@,
{
    let mut it = s.chars();
    let mut v: Vec<char> = Vec::new();
    loop
        invariant
            v@.len() <= s@.len(),
            v@ == s@.take(v@.len() as int),
            it.obeys_prophetic_iter_laws(),
            it.remaining() == s@.skip(v@.len() as int),
        ensures
            v@ == s@,
        decreases s@.len() - v@.len(),
    {
        let ghost n = v@.len() as int;
        match it.next() {
            Some(c) => {
                proof {
                    assert(s@.skip(n).len() > 0);
                    assert(c == s@.skip(n)[0]);
                    assert(c == s@[n]);
                }
                v.push(c);
                proof {
                    assert(v@ =~= s@.take(n + 1));
                    assert(s@.skip(n).drop_first() =~= s@.skip(n + 1));
                }
            },
            None => {
                proof {
                    assert(s@.skip(n).len() == 0);
                    assert(v@ =~= s@);
                }
                break ;
            },
        }
    }
    v
}

/// Relies on `String: FromIterator<char>`: collecting a vector's characters
/// builds the string of exactly those characters, in order.
#[verifier::external_body]
pub fn chars_to_string(v: &Vec<char>) -> (s: String)
    ensures
        s@ == v@,
{
    v.iter().collect()
}

/// Appends a vector of characters to an accumulator.
pub fn push_all(out: &mut Vec<char>, s: &Vec<char>)
    ensures
        final(out)@ == old(out)@ + s@,
{
    let mut i: usize = 0;
    while i < s.len()
        invariant
            i <= s.len(),
            out@ == old(out)@ + s@.take(i as int),
        decreases s.len() - i,
    {
        out.push(s[i]);
        proof {
            assert(old(out)@ + s@.take(i as int) + seq![s@[i as int]] =~= old(out)@ + s@.take(
                i as int + 1,
            ));
        }
        i = i + 1;
    }
    proof {
        assert(s@.take(s@.len() as int) =~= s@);
    }
}

/// Appends the characters of a string slice to an accumulator.
pub fn push_str_chars(out: &mut Vec<char>, s: &str)
    ensures
        final(out)@ == old(out)@ + s@,
{
    let v = str_to_chars(s);
    push_all(out, &v);
}

/// Whether two character vectors hold the same characters.
pub fn chars_eq(a: &Vec<char>, b: &Vec<char>) -> (r: bool)
    ensures
        r == (a@ == b@),
{
    if a.len() != b.len() {
        proof {
            assert(a@ != b@);
        }
        return false;
    }
    let mut i: usize = 0;
    while i < a.len()
        invariant
            a@.len() == b@.len(),
            i <= a.len(),
            forall|j: int| 0 <= j < i ==> a@[j] == b@[j],
        decreases a.len() - i,
    {
        if a[i] != b[i] {
            return false;
        }
        i = i + 1;
    }
    proof {
        assert(a@ =~= b@);
    }
    true
}

/// Whether a character vector holds exactly the characters of a string slice.
pub fn chars_eq_str(a: &Vec<char>, s: &str) -> (r: bool)
    ensures
        r == (a@ == s@),
{
    let b = str_to_chars(s);
    chars_eq(a, &b)
}

/// Whether `s` compared as characters equals `t`.
pub fn str_eq(s: &str, t: &str) -> (r: bool)
    ensures
        r == (s@ == t@),
{
    let a = str_to_chars(s);
    chars_eq_str(&a, t)
}

/// Copies the characters of `v` between `from` and `to`.
pub fn subvec(v: &Vec<char>, from: usize, to: usize) -> (r: Vec<char>)
    requires
        from <= to <= v@.len(),
    ensures
        r@ == v@.subrange(from as int, to as int),
{
    let mut r: Vec<char> = Vec::new();
    let mut i: usize = from;
    while i < to
        invariant
            from <= i <= to <= v@.len(),
            r@ == v@.subrange(from as int, i as int),
        decreases to - i,
    {
        r.push(v[i]);
        proof {
            assert(v@.subrange(from as int, i as int) + seq![v@[i as int]] =~= v@.subrange(
                from as int,
                i as int + 1,
            ));
        }
        i = i + 1;
    }
    r
}

/// The input with trailing whitespace removed.
pub open spec fn spec_trim_end(s: Seq<char>) -> Seq<char>
    decreases s.len(),
{
    if s.len() > 0 && is_ws(s.last()) {
        spec_trim_end(s.drop_last())
    } else {
        s
    }
}

/// The input with leading whitespace removed.
pub open spec fn spec_trim_start(s: Seq<char>) -> Seq<char>
    decreases s.len(),
{
    if s.len() > 0 && is_ws(s.first()) {
        spec_trim_start(s.drop_first())
    } else {
        s
    }
}

/// The input with leading and trailing whitespace removed.
pub open spec fn spec_trim(s: Seq<char>) -> Seq<char> {
    spec_trim_end(spec_trim_start(s))
}

/// Whether the line holds only whitespace.
pub open spec fn spec_is_blank(s: Seq<char>) -> bool {
    forall|i: int| 0 <= i < s.len() ==> is_ws(s[i])
}

/// Removes trailing whitespace.
pub fn trim_end_chars(v: &Vec<char>) -> (r: Vec<char>)
    ensures
        r@ == spec_trim_end(v@),
{
    proof {
        assert(v@.take(v@.len() as int) =~= v@);
    }
    let mut end: usize = v.len();
    while end > 0 && is_ws_char(v[end - 1])
        invariant
            end <= v@.len(),
            spec_trim_end(v@) == spec_trim_end(v@.take(end as int)),
        decreases end,
    {
        proof {
            assert(v@.take(end as int).last() == v@[end - 1]);
            assert(v@.take(end as int).drop_last() =~= v@.take(end as int - 1));
        }
        end = end - 1;
    }
    proof {
        if end == 0 {
            assert(v@.take(0).len() == 0);
        }
        assert(spec_trim_end(v@.take(end as int)) == v@.take(end as int));
    }
    subvec(v, 0, end)
}

/// Whether the line holds only whitespace.
pub fn is_blank(v: &Vec<char>) -> (r: bool)
    ensures
        r == spec_is_blank(v@),
{
    let mut i: usize = 0;
    while i < v.len()
        invariant
            i <= v@.len(),
            forall|j: int| 0 <= j < i ==> is_ws(v@[j]),
        decreases v@.len() - i,
    {
        if !is_ws_char(v[i]) {
            return false;
        }
        i = i + 1;
    }
    true
}

/// Whether `s` begins with the characters `p`.
pub open spec fn spec_starts_with(s: Seq<char>, p: Seq<char>) -> bool {
    s.len() >= p.len() && s.take(p.len() as int) == p
}

/// Whether `p` occurs at position `at` of `v`.
pub fn match_at(v: &Vec<char>, at: usize, p: &Vec<char>) -> (r: bool)
    requires
        at <= v@.len(),
    ensures
        r == (at + p@.len() <= v@.len() && v@.subrange(at as int, at as int + p@.len() as int)
            == p@),
{
    let n = v.len();
    if n - at < p.len() {
        return false;
    }
    let mut i: usize = 0;
    while i < p.len()
        invariant
            n == v@.len(),
            at + p@.len() <= n,
            i <= p@.len(),
            forall|j: int| 0 <= j < i ==> v@[at + j] == p@[j],
        decreases p@.len() - i,
    {
        if v[at + i] != p[i] {
            proof {
                assert(v@.subrange(at as int, at as int + p@.len() as int)[i as int] != p@[i as int]);
            }
            return false;
        }
        i = i + 1;
    }
    proof {
        assert(v@.subrange(at as int, at as int + p@.len() as int) =~= p@);
    }
    true
}

/// Whether the characters of `v` begin with the characters of `p`.
pub fn starts_with_chars(v: &Vec<char>, p: &Vec<char>) -> (r: bool)
    ensures
        r == spec_starts_with(v@, p@),
{
    let r = match_at(v, 0, p);
    proof {
        if v@.len() >= p@.len() {
            assert(v@.subrange(0, p@.len() as int) =~= v@.take(p@.len() as int));
        }
    }
    r
}

/// Whether the characters of `v` begin with the string `p`.
pub fn starts_with_str(v: &Vec<char>, p: &str) -> (r: bool)
    ensures
        r == spec_starts_with(v@, p@),
{
    let pc = str_to_chars(p);
    starts_with_chars(v, &pc)
}

/// Whether `p` occurs as a contiguous run of characters inside `s`.
pub open spec fn spec_contains(s: Seq<char>, p: Seq<char>) -> bool
    decreases s.len(),
{
    if s.len() < p.len() {
        false
    } else if spec_starts_with(s, p) {
        true
    } else if s.len() == 0 {
        false
    } else {
        spec_contains(s.drop_first(), p)
    }
}

/// Whether the string `p` occurs inside the characters of `v`.
pub fn contains_str(v: &Vec<char>, p: &str) -> (r: bool)
    requires
        p@.len() > 0,
    ensures
        r == spec_contains(v@, p@),
{
    let pc = str_to_chars(p);
    proof {
        assert(v@.skip(0) =~= v@);
    }
    let mut i: usize = 0;
    while i < v.len()
        invariant
            pc@ == p@,
            i <= v@.len(),
            spec_contains(v@, p@) == spec_contains(v@.skip(i as int), p@),
        decreases v@.len() - i,
    {
        if match_at(v, i, &pc) {
            proof {
                assert(v@.skip(i as int).take(p@.len() as int) =~= v@.subrange(
                    i as int,
                    i as int + p@.len() as int,
                ));
            }
            return true;
        }
        proof {
            if v@.skip(i as int).len() >= p@.len() {
                assert(v@.skip(i as int).take(p@.len() as int) =~= v@.subrange(
                    i as int,
                    i as int + p@.len() as int,
                ));
            }
            assert(v@.skip(i as int).drop_first() =~= v@.skip(i as int + 1));
        }
        i = i + 1;
    }
    proof {
        assert(v@.skip(v@.len() as int).len() == 0);
    }
    false
}

/// Whether the line's final character is `c`.
pub open spec fn spec_ends_with(s: Seq<char>, c: char) -> bool {
    s.len() > 0 && s.last() == c
}

/// Whether the final character of `v` is `c`.
pub fn ends_with_char(v: &Vec<char>, c: char) -> (r: bool)
    ensures
        r == spec_ends_with(v@, c),
{
    v.len() > 0 && v[v.len() - 1] == c
}

/// Copies a character vector.
pub fn copy_chars(v: &Vec<char>) -> (r: Vec<char>)
    ensures
        r@ == v@,
{
    let r = subvec(v, 0, v.len());
    proof {
        assert(v@.subrange(0, v@.len() as int) =~= v@);
    }
    r
}

/// Removes leading and trailing whitespace.
pub fn trim_chars(v: &Vec<char>) -> (r: Vec<char>)
    ensures
        r@ == spec_trim(v@),
{
    proof {
        assert(v@.skip(0) =~= v@);
    }
    let start = skip_ws_from(v, 0);
    let tail = subvec(v, start, v.len());
    proof {
        assert(tail@ =~= v@.skip(start as int));
    }
    trim_end_chars(&tail)
}

/// The input with every copy of the prefix `p` stripped from its head.
pub open spec fn spec_strip_all(s: Seq<char>, p: Seq<char>) -> Seq<char>
    decreases s.len(),
{
    if p.len() > 0 && spec_starts_with(s, p) {
        spec_strip_all(s.skip(p.len() as int), p)
    } else {
        s
    }
}

/// Strips every leading copy of the string `p` from `v`.
pub fn strip_all_prefix(v: &Vec<char>, p: &str) -> (r: Vec<char>)
    requires
        p@.len() > 0,
    ensures
        r@ == spec_strip_all(v@, p@),
{
    let pc = str_to_chars(p);
    let n = v.len();
    proof {
        assert(v@.skip(0) =~= v@);
    }
    let mut i: usize = 0;
    loop
        invariant
            pc@ == p@,
            p@.len() > 0,
            n == v@.len(),
            i <= v@.len(),
            spec_strip_all(v@, p@) == spec_strip_all(v@.skip(i as int), p@),
        ensures
            i <= v@.len(),
            spec_strip_all(v@, p@) == v@.skip(i as int),
        decreases v@.len() - i,
    {
        if !match_at(v, i, &pc) {
            proof {
                if v@.skip(i as int).len() >= p@.len() {
                    assert(v@.skip(i as int).take(p@.len() as int) =~= v@.subrange(
                        i as int,
                        i as int + p@.len() as int,
                    ));
                }
                assert(spec_strip_all(v@.skip(i as int), p@) == v@.skip(i as int));
            }
            break ;
        }
        proof {
            assert(v@.skip(i as int).take(p@.len() as int) =~= v@.subrange(
                i as int,
                i as int + p@.len() as int,
            ));
            assert(v@.skip(i as int).skip(p@.len() as int) =~= v@.skip(
                i as int + p@.len() as int,
            ));
        }
        i = i + pc.len();
    }
    subvec(v, i, v.len())
}

/// The longest whitespace-free run at the head of the input.
pub open spec fn spec_take_tok(s: Seq<char>) -> Seq<char>
    decreases s.len(),
{
    if s.len() > 0 && !is_ws(s.first()) {
        seq![s.first()] + spec_take_tok(s.drop_first())
    } else {
        Seq::empty()
    }
}

/// The input with its head whitespace-free run removed.
pub open spec fn spec_drop_tok(s: Seq<char>) -> Seq<char>
    decreases s.len(),
{
    if s.len() > 0 && !is_ws(s.first()) {
        spec_drop_tok(s.drop_first())
    } else {
        s
    }
}

/// The first whitespace-delimited token of the line, if any.
pub open spec fn spec_first_token(s: Seq<char>) -> Option<Seq<char>> {
    let t = spec_take_tok(spec_trim_start(s));
    if t.len() == 0 {
        Option::None
    } else {
        Option::Some(t)
    }
}

/// The second whitespace-delimited token of the line, if any.
pub open spec fn spec_second_token(s: Seq<char>) -> Option<Seq<char>> {
    spec_first_token(spec_drop_tok(spec_trim_start(s)))
}

/// The position just past the leading whitespace of `v`, starting at `from`.
fn skip_ws_from(v: &Vec<char>, from: usize) -> (j: usize)
    requires
        from <= v@.len(),
    ensures
        from <= j <= v@.len(),
        spec_trim_start(v@.skip(from as int)) == v@.skip(j as int),
        forall|k: int| from <= k < j ==> is_ws(v@[k]),
        j < v@.len() ==> !is_ws(v@[j as int]),
{
    let mut j: usize = from;
    while j < v.len() && is_ws_char(v[j])
        invariant
            from <= j <= v@.len(),
            spec_trim_start(v@.skip(from as int)) == spec_trim_start(v@.skip(j as int)),
            forall|k: int| from <= k < j ==> is_ws(v@[k]),
        decreases v@.len() - j,
    {
        proof {
            assert(v@.skip(j as int).first() == v@[j as int]);
            assert(v@.skip(j as int).drop_first() =~= v@.skip(j as int + 1));
        }
        j = j + 1;
    }
    proof {
        assert(spec_trim_start(v@.skip(j as int)) == v@.skip(j as int));
    }
    j
}

/// The position just past the whitespace-free run beginning at `from`.
fn skip_tok_from(v: &Vec<char>, from: usize) -> (j: usize)
    requires
        from <= v@.len(),
    ensures
        from <= j <= v@.len(),
        spec_drop_tok(v@.skip(from as int)) == v@.skip(j as int),
        spec_take_tok(v@.skip(from as int)) == v@.subrange(from as int, j as int),
        j < v@.len() ==> is_ws(v@[j as int]),
{
    let mut j: usize = from;
    while j < v.len() && !is_ws_char(v[j])
        invariant
            from <= j <= v@.len(),
            spec_drop_tok(v@.skip(from as int)) == spec_drop_tok(v@.skip(j as int)),
            spec_take_tok(v@.skip(from as int)) == v@.subrange(from as int, j as int)
                + spec_take_tok(v@.skip(j as int)),
        decreases v@.len() - j,
    {
        proof {
            assert(v@.skip(j as int).first() == v@[j as int]);
            assert(v@.skip(j as int).drop_first() =~= v@.skip(j as int + 1));
            assert(v@.subrange(from as int, j as int) + seq![v@[j as int]] =~= v@.subrange(
                from as int,
                j as int + 1,
            ));
            assert(v@.subrange(from as int, j as int) + (seq![v@[j as int]] + spec_take_tok(
                v@.skip(j as int + 1),
            )) =~= (v@.subrange(from as int, j as int) + seq![v@[j as int]]) + spec_take_tok(
                v@.skip(j as int + 1),
            ));
        }
        j = j + 1;
    }
    proof {
        assert(spec_take_tok(v@.skip(j as int)) == Seq::<char>::empty());
        assert(v@.subrange(from as int, j as int) + Seq::<char>::empty() =~= v@.subrange(
            from as int,
            j as int,
        ));
    }
    j
}

/// The first whitespace-delimited token of the line, if any.
pub fn first_token(v: &Vec<char>) -> (r: Option<Vec<char>>)
    ensures
        match r {
            Option::Some(t) => spec_first_token(v@) == Option::Some(t@),
            Option::None => spec_first_token(v@) == Option::<Seq<char>>::None,
        },
{
    proof {
        assert(v@.skip(0) =~= v@);
    }
    let a = skip_ws_from(v, 0);
    let b = skip_tok_from(v, a);
    if a == b {
        Option::None
    } else {
        Option::Some(subvec(v, a, b))
    }
}

/// The second whitespace-delimited token of the line, if any.
pub fn second_token(v: &Vec<char>) -> (r: Option<Vec<char>>)
    ensures
        match r {
            Option::Some(t) => spec_second_token(v@) == Option::Some(t@),
            Option::None => spec_second_token(v@) == Option::<Seq<char>>::None,
        },
{
    proof {
        assert(v@.skip(0) =~= v@);
    }
    let a = skip_ws_from(v, 0);
    let b = skip_tok_from(v, a);
    let c = skip_ws_from(v, b);
    let d = skip_tok_from(v, c);
    if c == d {
        Option::None
    } else {
        Option::Some(subvec(v, c, d))
    }
}

/// The rest of the input after its first opening parenthesis.
pub open spec fn spec_after_open(s: Seq<char>) -> Seq<char>
    decreases s.len(),
{
    if s.len() == 0 {
        Seq::empty()
    } else if s.first() == '(' {
        s.drop_first()
    } else {
        spec_after_open(s.drop_first())
    }
}

/// The run of characters before the first closing parenthesis.
pub open spec fn spec_until_close(s: Seq<char>) -> Seq<char>
    decreases s.len(),
{
    if s.len() > 0 && s.first() != ')' {
        seq![s.first()] + spec_until_close(s.drop_first())
    } else {
        Seq::empty()
    }
}

/// The interior text of the first parenthesized group: what stands after the
/// first `(` and before the next `)`.
pub open spec fn spec_paren_interior(s: Seq<char>) -> Seq<char> {
    spec_until_close(spec_after_open(s))
}

/// The characters of `v` after its first `(`, or none if `(` is absent.
fn after_open(v: &Vec<char>) -> (j: usize)
    ensures
        j <= v@.len(),
        spec_after_open(v@) == v@.skip(j as int),
{
    proof {
        assert(v@.skip(0) =~= v@);
    }
    let mut j: usize = 0;
    while j < v.len() && v[j] != '('
        invariant
            j <= v@.len(),
            spec_after_open(v@) == spec_after_open(v@.skip(j as int)),
        decreases v@.len() - j,
    {
        proof {
            assert(v@.skip(j as int).first() == v@[j as int]);
            assert(v@.skip(j as int).drop_first() =~= v@.skip(j as int + 1));
        }
        j = j + 1;
    }
    if j < v.len() {
        proof {
            assert(v@.skip(j as int).drop_first() =~= v@.skip(j as int + 1));
        }
        j + 1
    } else {
        proof {
            assert(v@.skip(j as int).len() == 0);
            assert(spec_after_open(v@.skip(j as int)) =~= v@.skip(j as int));
        }
        j
    }
}

/// Copies the characters of `v` from `from` up to the first `)` at or after
/// `from` (exclusive), or to the end if none.
pub fn take_until_close(v: &Vec<char>, from: usize) -> (r: Vec<char>)
    requires
        from <= v@.len(),
    ensures
        r@ == spec_until_close(v@.skip(from as int)),
{
    let mut j: usize = from;
    while j < v.len() && v[j] != ')'
        invariant
            from <= j <= v@.len(),
            spec_until_close(v@.skip(from as int)) == v@.subrange(from as int, j as int)
                + spec_until_close(v@.skip(j as int)),
        decreases v@.len() - j,
    {
        proof {
            assert(v@.skip(j as int).first() == v@[j as int]);
            assert(v@.skip(j as int).drop_first() =~= v@.skip(j as int + 1));
            assert(v@.subrange(from as int, j as int) + (seq![v@[j as int]] + spec_until_close(
                v@.skip(j as int + 1),
            )) =~= v@.subrange(from as int, j as int + 1) + spec_until_close(
                v@.skip(j as int + 1),
            ));
        }
        j = j + 1;
    }
    proof {
        assert(spec_until_close(v@.skip(j as int)) == Seq::<char>::empty());
        assert(v@.subrange(from as int, j as int) + Seq::<char>::empty() =~= v@.subrange(
            from as int,
            j as int,
        ));
    }
    subvec(v, from, j)
}

/// The interior of the first parenthesized group of `v`.
pub fn paren_interior(v: &Vec<char>) -> (r: Vec<char>)
    ensures
        r@ == spec_paren_interior(v@),
{
    let j = after_open(v);
    take_until_close(v, j)
}

/// The position of the first `c` at or after position `from`, as an offset
/// count; equals the length of the remainder where `c` is absent.
pub open spec fn spec_find_char(s: Seq<char>, c: char) -> nat
    decreases s.len(),
{
    if s.len() == 0 {
        0
    } else if s.first() == c {
        0
    } else {
        1 + spec_find_char(s.drop_first(), c)
    }
}

/// The found offset never passes the end of the input.
pub proof fn lemma_find_char_le(s: Seq<char>, c: char)
    ensures
        spec_find_char(s, c) <= s.len(),
    decreases s.len(),
{
    if s.len() > 0 && s.first() != c {
        lemma_find_char_le(s.drop_first(), c);
    }
}

/// The position of the first `c` at or after `from` in `v`, or the length of
/// `v` if `c` does not occur there.
fn find_from(v: &Vec<char>, from: usize, c: char) -> (j: usize)
    requires
        from <= v@.len(),
    ensures
        from <= j <= v@.len(),
        j - from == spec_find_char(v@.skip(from as int), c),
        j < v@.len() ==> v@[j as int] == c,
{
    let mut j: usize = from;
    while j < v.len() && v[j] != c
        invariant
            from <= j <= v@.len(),
            spec_find_char(v@.skip(from as int), c) == (j - from) + spec_find_char(
                v@.skip(j as int),
                c,
            ),
        decreases v@.len() - j,
    {
        proof {
            assert(v@.skip(j as int).first() == v@[j as int]);
            assert(v@.skip(j as int).drop_first() =~= v@.skip(j as int + 1));
        }
        j = j + 1;
    }
    proof {
        assert(spec_find_char(v@.skip(j as int), c) == 0);
    }
    j
}

/// The lines of a text: the runs between newline characters, the final
/// newline, if any, closing the last line rather than opening an empty one.
pub open spec fn spec_lines(s: Seq<char>) -> Seq<Seq<char>>
    decreases s.len(),
    via spec_lines_dec
{
    if s.len() == 0 {
        Seq::empty()
    } else {
        let i = spec_find_char(s, '\n') as int;
        if i == s.len() {
            seq![s]
        } else {
            seq![s.take(i)] + spec_lines(s.skip(i + 1))
        }
    }
}

#[via_fn]
proof fn spec_lines_dec(s: Seq<char>) {
    lemma_find_char_le(s, '\n');
}

/// Splits a text into its lines.
pub fn split_lines(v: &Vec<char>) -> (r: Vec<Vec<char>>)
    ensures
        r.deep_view() == spec_lines(v@),
{
    let mut r: Vec<Vec<char>> = Vec::new();
    let mut i: usize = 0;
    proof {
        assert(v@.skip(0) =~= v@);
        assert(r.deep_view() + spec_lines(v@.skip(0)) =~= spec_lines(v@));
    }
    while i < v.len()
        invariant
            i <= v@.len(),
            spec_lines(v@) == r.deep_view() + spec_lines(v@.skip(i as int)),
        decreases v@.len() - i,
    {
        let j = find_from(v, i, '\n');
        let line = subvec(v, i, j);
        proof {
            assert(line@ =~= v@.skip(i as int).take(j - i));
        }
        let ghost old_r = r.deep_view();
        r.push(line);
        proof {
            assert(line.deep_view() =~= line@);
            assert(r.deep_view() =~= old_r + seq![line@]);
        }
        if j < v.len() {
            proof {
                assert(v@.skip(i as int).skip(j - i + 1) =~= v@.skip(j as int + 1));
                assert(old_r + (seq![line@] + spec_lines(v@.skip(j as int + 1))) =~= (old_r
                    + seq![line@]) + spec_lines(v@.skip(j as int + 1)));
            }
            i = j + 1;
        } else {
            proof {
                assert(v@.skip(i as int).len() > 0);
                assert(spec_lines(v@.skip(i as int)) =~= seq![v@.skip(i as int)]);
                assert(line@ =~= v@.skip(i as int));
                assert(old_r + seq![line@] + spec_lines(v@.skip(v@.len() as int)) =~= old_r + seq![
                    line@,
                ]);
            }
            i = v.len();
        }
    }
    proof {
        assert(spec_lines(v@.skip(v@.len() as int)) =~= Seq::<Seq<char>>::empty());
        assert(r.deep_view() + Seq::<Seq<char>>::empty() =~= r.deep_view());
    }
    r
}

} // verus!
