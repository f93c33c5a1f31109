use vstd::prelude::*;

verus! {

// ----------------------------------------------------------------------------
// Specification of literal, left-to-right, non-overlapping substring
// replacement, as `str::replace` performs it.
// ----------------------------------------------------------------------------

/// One pass of literal substring replacement: scan `s` from the left; at each
/// position, if `pat` starts there, emit `rep` and continue after the match,
/// otherwise emit the character and move on by one. An empty pattern leaves
/// the string unchanged.
pub open spec fn replace_spec(s: Seq<char>, pat: Seq<char>, rep: Seq<char>) -> Seq<char>
    decreases s.len(),
{
    if pat.len() == 0 || s.len() < pat.len() {
        s
    } else if s.subrange(0, pat.len() as int) == pat {
        rep + replace_spec(s.subrange(pat.len() as int, s.len() as int), pat, rep)
    } else {
        seq![s[0]] + replace_spec(s.subrange(1, s.len() as int), pat, rep)
    }
}

/// The fixed substitution table, in its fixed order. Entries 0 to 17 are the
/// main pass (accented vowels, punctuation, percent sign, and so on); entry 18
/// is the final collapse of exactly three consecutive hyphens into one.
pub open spec fn pattern_at(k: int) -> Seq<char> {
    if k == 0 { seq!['\u{e0}'] }
    else if k == 1 { seq!['\u{e8}'] }
    else if k == 2 { seq!['\u{e9}'] }
    else if k == 3 { seq!['\u{ec}'] }
    else if k == 4 { seq!['\u{f2}'] }
    else if k == 5 { seq!['\u{f9}'] }
    else if k == 6 { seq!['\''] }
    else if k == 7 { seq!['?'] }
    else if k == 8 { seq![' '] }
    else if k == 9 { seq!['_', '_'] }
    else if k == 10 { seq!['&'] }
    else if k == 11 { seq!['%'] }
    else if k == 12 { seq!['#'] }
    else if k == 13 { seq!['('] }
    else if k == 14 { seq![')'] }
    else if k == 15 { seq!['/'] }
    else if k == 16 { seq!['+'] }
    else if k == 17 { seq!['\u{b0}'] }
    else { seq!['-', '-', '-'] }
}

/// The replacement paired with `pattern_at(k)`.
pub open spec fn replacement_at(k: int) -> Seq<char> {
    if k == 0 { seq!['a'] }
    else if k == 1 { seq!['e'] }
    else if k == 2 { seq!['e'] }
    else if k == 3 { seq!['i'] }
    else if k == 4 { seq!['o'] }
    else if k == 5 { seq!['u'] }
    else if k == 6 { seq!['-'] }
    else if k == 7 { seq!['-'] }
    else if k == 8 { seq!['-'] }
    else if k == 9 { seq!['-'] }
    else if k == 10 { seq!['e'] }
    else if k == 11 { seq!['-', 'p', 'e', 'r', '-', 'c', 'e', 'n', 't', 'o', '-'] }
    else if k == 12 { seq!['-'] }
    else if k == 13 { Seq::<char>::empty() }
    else if k == 14 { Seq::<char>::empty() }
    else if k == 15 { seq!['-'] }
    else if k == 16 { seq!['_'] }
    else if k == 17 { seq!['_'] }
    else { seq!['-'] }
}

/// The string after the first `k` substitution passes.
pub open spec fn substitutions_upto(s: Seq<char>, k: int) -> Seq<char>
    decreases k,
{
    if k <= 0 {
        s
    } else {
        replace_spec(substitutions_upto(s, k - 1), pattern_at(k - 1), replacement_at(k - 1))
    }
}

/// All 19 substitution passes: the 18 table entries, then the triple-hyphen
/// collapse.
pub open spec fn substituted(s: Seq<char>) -> Seq<char> {
    substitutions_upto(s, 19)
}

/// What `str::trim` returns on a string with this character sequence.
pub uninterp spec fn trim_of(s: Seq<char>) -> Seq<char>;

/// What `str::to_lowercase` returns on a string with this character sequence.
pub uninterp spec fn lower_of(s: Seq<char>) -> Seq<char>;

/// The sanitizer as a whole: trim, lower-case, then the fixed substitution
/// passes in their fixed order.
pub open spec fn sanitize_spec(s: Seq<char>) -> Seq<char> {
    substituted(lower_of(trim_of(s)))
}

// ----------------------------------------------------------------------------
// Laws of the substitution passes.
// ----------------------------------------------------------------------------

/// True when `pat` occurs somewhere in `s`.
pub open spec fn occurs_in(s: Seq<char>, pat: Seq<char>) -> bool {
    exists|i: int|
        0 <= i && i + pat.len() <= s.len() && #[trigger] s.subrange(i, i + pat.len() as int)
            == pat
}

/// A pass over a string that does not hold its pattern changes nothing.
proof fn lemma_replace_absent(s: Seq<char>, pat: Seq<char>, rep: Seq<char>)
    requires
        pat.len() > 0,
        !occurs_in(s, pat),
    ensures
        replace_spec(s, pat, rep) == s,
    decreases s.len(),
{
    if s.len() < pat.len() {
    } else if s.subrange(0, pat.len() as int) == pat {
        assert(s.subrange(0, 0 + pat.len() as int) == pat);
        assert(occurs_in(s, pat));
    } else {
        let tail = s.subrange(1, s.len() as int);
        assert forall|i: int| 0 <= i && i + pat.len() <= tail.len() implies #[trigger] tail
            .subrange(i, i + pat.len() as int) != pat by {
            if tail.subrange(i, i + pat.len() as int) == pat {
                assert(s.subrange(i + 1, i + 1 + pat.len() as int)
                    =~= tail.subrange(i, i + pat.len() as int));
                assert(occurs_in(s, pat));
            }
        }
        lemma_replace_absent(tail, pat, rep);
        assert(seq![s[0]] + tail =~= s);
    }
}

/// After a pass whose pattern is one character that its replacement does not
/// hold, that character is gone from the result.
proof fn lemma_replace_single_char_gone(s: Seq<char>, c: char, rep: Seq<char>)
    requires
        forall|j: int| 0 <= j < rep.len() ==> rep[j] != c,
    ensures
        forall|i: int| 0 <= i < replace_spec(s, seq![c], rep).len()
            ==> #[trigger] replace_spec(s, seq![c], rep)[i] != c,
    decreases s.len(),
{
    let pat = seq![c];
    let r = replace_spec(s, pat, rep);
    if s.len() < 1 {
    } else if s.subrange(0, 1) == pat {
        let tail = s.subrange(1, s.len() as int);
        lemma_replace_single_char_gone(tail, c, rep);
        assert forall|i: int| 0 <= i < r.len() implies r[i] != c by {
            if i < rep.len() {
                assert(r[i] == rep[i]);
            } else {
                assert(r[i] == replace_spec(tail, pat, rep)[i - rep.len()]);
            }
        }
    } else {
        let tail = s.subrange(1, s.len() as int);
        lemma_replace_single_char_gone(tail, c, rep);
        assert(s.subrange(0, 1)[0] == s[0]);
        assert(seq![c][0] == c);
        if s[0] == c {
            assert(s.subrange(0, 1) =~= pat);
        }
        assert forall|i: int| 0 <= i < r.len() implies r[i] != c by {
            if i == 0 {
                assert(r[0] == s[0]);
            } else {
                assert(r[i] == replace_spec(tail, pat, rep)[i - 1]);
            }
        }
    }
}

/// A string in which a character does not appear does not hold the
/// one-character pattern made of it.
proof fn lemma_single_char_occurrence(s: Seq<char>, c: char)
    requires
        forall|i: int| 0 <= i < s.len() ==> #[trigger] s[i] != c,
    ensures
        !occurs_in(s, seq![c]),
{
    assert forall|i: int| 0 <= i && i + 1 <= s.len() implies #[trigger] s.subrange(i, i + 1)
        != seq![c] by {
        assert(s.subrange(i, i + 1)[0] == s[i]);
    }
}

/// The first character of a replacement pass's output is either the first
/// character of the replacement or the first character of the input.
proof fn lemma_replace_first_char(s: Seq<char>, pat: Seq<char>, rep: Seq<char>)
    requires
        pat.len() > 0,
        rep.len() > 0,
    ensures
        replace_spec(s, pat, rep).len() > 0 ==> (replace_spec(s, pat, rep)[0] == rep[0] || (
        s.len() > 0 && replace_spec(s, pat, rep)[0] == s[0])),
{
    if s.len() < pat.len() {
    } else if s.subrange(0, pat.len() as int) == pat {
    } else {
    }
}

/// The double-underscore pass of the table.
spec fn underscore_pass(s: Seq<char>) -> Seq<char> {
    replace_spec(s, seq!['_', '_'], seq!['-'])
}

/// After the double-underscore pass, no two underscores stand side by side.
proof fn lemma_no_double_underscore(s: Seq<char>)
    ensures
        forall|i: int| 0 <= i && i + 1 < underscore_pass(s).len()
            ==> !(#[trigger] underscore_pass(s)[i] == '_' && underscore_pass(s)[i + 1] == '_'),
    decreases s.len(),
{
    let pat = seq!['_', '_'];
    let rep = seq!['-'];
    let r = replace_spec(s, pat, rep);
    if s.len() < 2 {
    } else if s.subrange(0, 2) == pat {
        let tail = s.subrange(2, s.len() as int);
        lemma_no_double_underscore(tail);
        let rt = replace_spec(tail, pat, rep);
        assert forall|i: int| 0 <= i && i + 1 < underscore_pass(s).len() implies !(
        #[trigger] underscore_pass(s)[i] == '_' && underscore_pass(s)[i + 1] == '_') by {
            if i == 0 {
                assert(r[0] == '-');
            } else {
                assert(r[i] == rt[i - 1] && r[i + 1] == rt[i]);
                assert(underscore_pass(tail)[i - 1] == rt[i - 1]);
            }
        }
    } else {
        let tail = s.subrange(1, s.len() as int);
        lemma_no_double_underscore(tail);
        lemma_replace_first_char(tail, pat, rep);
        let rt = replace_spec(tail, pat, rep);
        assert(s.subrange(0, 2)[0] == s[0] && s.subrange(0, 2)[1] == s[1]);
        assert forall|i: int| 0 <= i && i + 1 < underscore_pass(s).len() implies !(
        #[trigger] underscore_pass(s)[i] == '_' && underscore_pass(s)[i + 1] == '_') by {
            if i == 0 {
                assert(r[0] == s[0]);
                assert(r[1] == rt[0]);
                if s[0] == '_' && rt[0] == '_' {
                    // the tail cannot begin with an underscore pass output of
                    // an underscore unless the tail itself began with one
                    assert(rt[0] == tail[0]);
                    assert(tail[0] == s[1]);
                    assert(s.subrange(0, 2) =~= pat);
                }
            } else {
                assert(r[i] == rt[i - 1] && r[i + 1] == rt[i]);
                assert(underscore_pass(tail)[i - 1] == rt[i - 1]);
            }
        }
    }
}

/// Law: each of the 18 substitution passes of the table is idempotent —
/// running the same pass a second time on its own output changes nothing.
/// The final triple-hyphen collapse is deliberately not covered: on a run of
/// seven or more hyphens its output can still hold three hyphens in a row.
pub proof fn lemma_substitution_pass_idempotent(s: Seq<char>, k: int)
    requires
        0 <= k < 18,
    ensures
        replace_spec(replace_spec(s, pattern_at(k), replacement_at(k)), pattern_at(k),
        replacement_at(k)) == replace_spec(s, pattern_at(k), replacement_at(k)),
{
    let pat = pattern_at(k);
    let rep = replacement_at(k);
    let r = replace_spec(s, pat, rep);
    if k == 9 {
        lemma_no_double_underscore(s);
        assert forall|i: int| 0 <= i && i + pat.len() <= r.len() implies #[trigger] r.subrange(
            i,
            i + pat.len() as int,
        ) != pat by {
            if r.subrange(i, i + pat.len() as int) == pat {
                assert(r.subrange(i, i + pat.len() as int)[0] == r[i]);
                assert(r.subrange(i, i + pat.len() as int)[1] == r[i + 1]);
                assert(pat[0] == '_' && pat[1] == '_');
                assert(underscore_pass(s)[i] == r[i]);
            }
        }
        lemma_replace_absent(r, pat, rep);
    } else {
        let c = pat[0];
        assert(pat =~= seq![c]);
        assert(forall|j: int| 0 <= j < rep.len() ==> rep[j] != c);
        lemma_replace_single_char_gone(s, c, rep);
        lemma_single_char_occurrence(r, c);
        lemma_replace_absent(r, pat, rep);
    }
}

// ----------------------------------------------------------------------------
// Trusted boundary: the Unicode-aware pieces of std that the sanitizer uses.
// ----------------------------------------------------------------------------

/// Relies on `str::trim`: removes leading and trailing whitespace; the result
/// depends on the characters alone. A string whose first and last characters
/// are printable ASCII other than the space carries no Unicode whitespace at
/// either end, so it passes through unchanged.
#[verifier::external_body]
fn trim_str(s: &str) -> (r: String)
    ensures
        r@ == trim_of(s@),
        r@.len() <= s@.len(),
        s@.len() == 0 ==> r@ == s@,
        (s@.len() > 0 && 0x21 <= s@[0] as u32 <= 0x7e && 0x21 <= s@[s@.len() - 1] as u32
            <= 0x7e) ==> r@ == s@,
{
    s.trim().to_owned()
}

/// Relies on `str::to_lowercase`: the Unicode lower-case equivalent of the
/// string; the result depends on the characters alone. On ASCII characters
/// the Unicode mapping is exactly the one-for-one ASCII lower-casing.
#[verifier::external_body]
fn lowercase_str(s: &str) -> (r: String)
    ensures
        r@ == lower_of(s@),
        s@.len() == 0 ==> r@.len() == 0,
        (forall|i: int| 0 <= i < s@.len() ==> #[trigger] s@[i] as u32 <= 0x7f) ==> r@
            == crate::validate::ascii_lower(s@),
{
    s.to_lowercase()
}

/// Relies on `String`'s `FromIterator<char>`: collecting characters builds the
/// string with exactly those characters in order.
#[verifier::external_body]
pub(crate) fn chars_to_string(v: &Vec<char>) -> (r: String)
    ensures
        r@ == v@,
{
    v.iter().collect()
}

// ----------------------------------------------------------------------------
// Verified executable code.
// ----------------------------------------------------------------------------

/// Collects the characters of a string slice into a vector.
pub(crate) fn str_to_chars(s: &str) -> (v: Vec<char>)
    ensures
        v@ == s@,
{
    let n: usize = s.unicode_len();
    let mut v: Vec<char> = Vec::new();
    let mut i: usize = 0;
    while i < n
        invariant
            n == s@.len(),
            i <= n,
            v@ == s@.subrange(0, i as int),
        decreases n - i,
    {
        v.push(s.get_char(i));
        i = i + 1;
        proof {
            assert(v@ =~= s@.subrange(0, i as int));
        }
    }
    proof {
        assert(v@ =~= s@);
    }
    v
}

/// True exactly when `pat` occurs in `s` starting at position `i`.
fn matches_at(s: &Vec<char>, pat: &Vec<char>, i: usize) -> (r: bool)
    requires
        i + pat@.len() <= s@.len(),
    ensures
        r == (s@.subrange(i as int, i as int + pat@.len() as int) == pat@),
{
    let slen: usize = s.len();
    let mut j: usize = 0;
    while j < pat.len()
        invariant
            slen == s@.len(),
            i + pat@.len() <= s@.len(),
            j <= pat@.len(),
            forall|m: int| 0 <= m < j ==> s@[i + m] == pat@[m],
        decreases pat@.len() - j,
    {
        if s[i + j] != pat[j] {
            proof {
                assert(s@.subrange(i as int, i as int + pat@.len() as int)[j as int]
                    != pat@[j as int]);
            }
            return false;
        }
        j = j + 1;
    }
    proof {
        assert(s@.subrange(i as int, i as int + pat@.len() as int) =~= pat@);
    }
    true
}

/// Appends every character of `add` to `out`.
fn push_all(out: &mut Vec<char>, add: &Vec<char>)
    ensures
        final(out)@ == old(out)@ + add@,
{
    let mut j: usize = 0;
    while j < add.len()
        invariant
            j <= add@.len(),
            out@ == old(out)@ + add@.subrange(0, j as int),
        decreases add@.len() - j,
    {
        out.push(add[j]);
        j = j + 1;
        proof {
            assert(old(out)@ + add@.subrange(0, j - 1) + seq![add@[j - 1]]
                =~= old(out)@ + add@.subrange(0, j as int));
        }
    }
    proof {
        assert(old(out)@ + add@.subrange(0, add@.len() as int) =~= old(out)@ + add@);
    }
}

/// One literal replacement pass over a character vector, exactly as
/// `replace_spec` describes it.
fn replace_all(s: &Vec<char>, pat: &Vec<char>, rep: &Vec<char>) -> (r: Vec<char>)
    requires
        pat@.len() > 0,
    ensures
        r@ == replace_spec(s@, pat@, rep@),
{
    let mut out: Vec<char> = Vec::new();
    let mut i: usize = 0;
    proof {
        assert(s@.subrange(0, s@.len() as int) =~= s@);
        assert(Seq::<char>::empty() + replace_spec(s@, pat@, rep@)
            =~= replace_spec(s@, pat@, rep@));
    }
    while i < s.len()
        invariant
            pat@.len() > 0,
            i <= s@.len(),
            replace_spec(s@, pat@, rep@)
                == out@ + replace_spec(s@.subrange(i as int, s@.len() as int), pat@, rep@),
        decreases s@.len() - i,
    {
        let ghost pre = s@.subrange(i as int, s@.len() as int);
        if pat.len() <= s.len() - i && matches_at(s, pat, i) {
            proof {
                assert(pre.subrange(0, pat@.len() as int)
                    =~= s@.subrange(i as int, i as int + pat@.len() as int));
                assert(pre.subrange(pat@.len() as int, pre.len() as int)
                    =~= s@.subrange(i as int + pat@.len() as int, s@.len() as int));
            }
            push_all(&mut out, rep);
            i = i + pat.len();
        } else {
            proof {
                if pre.len() >= pat@.len() {
                    assert(pre.subrange(0, pat@.len() as int)
                        =~= s@.subrange(i as int, i as int + pat@.len() as int));
                }
                assert(pre.subrange(1, pre.len() as int)
                    =~= s@.subrange(i as int + 1, s@.len() as int));
                assert(seq![pre[0]] =~= seq![s@[i as int]]);
            }
            out.push(s[i]);
            i = i + 1;
        }
    }
    proof {
        assert(s@.subrange(i as int, s@.len() as int) =~= Seq::<char>::empty());
        assert(replace_spec(Seq::<char>::empty(), pat@, rep@) =~= Seq::<char>::empty());
        assert(out@ + Seq::<char>::empty() =~= out@);
    }
    out
}

/// Builds the executable form of substitution pass `k` of the table.
fn substitution_pair(k: usize) -> (p: (Vec<char>, Vec<char>))
    requires
        k < 19,
    ensures
        p.0@ == pattern_at(k as int),
        p.1@ == replacement_at(k as int),
        p.0@.len() > 0,
{
    match k {
        0 => (vec!['\u{e0}'], vec!['a']),
        1 => (vec!['\u{e8}'], vec!['e']),
        2 => (vec!['\u{e9}'], vec!['e']),
        3 => (vec!['\u{ec}'], vec!['i']),
        4 => (vec!['\u{f2}'], vec!['o']),
        5 => (vec!['\u{f9}'], vec!['u']),
        6 => (vec!['\''], vec!['-']),
        7 => (vec!['?'], vec!['-']),
        8 => (vec![' '], vec!['-']),
        9 => (vec!['_', '_'], vec!['-']),
        10 => (vec!['&'], vec!['e']),
        11 => (vec!['%'], vec!['-', 'p', 'e', 'r', '-', 'c', 'e', 'n', 't', 'o', '-']),
        12 => (vec!['#'], vec!['-']),
        13 => (vec!['('], Vec::new()),
        14 => (vec![')'], Vec::new()),
        15 => (vec!['/'], vec!['-']),
        16 => (vec!['+'], vec!['_']),
        17 => (vec!['\u{b0}'], vec!['_']),
        _ => (vec!['-', '-', '-'], vec!['-']),
    }
}

/// Cleans a name into a filesystem-safe slug: trim, lower-case, then apply
/// the fixed substitution table in order, and finally collapse each literal
/// run of exactly three hyphens into one.
pub fn sanitize_name(name: &str) -> (r: String)
    ensures
        r@ == sanitize_spec(name@),
{
    let trimmed = trim_str(name);
    let lowered = lowercase_str(trimmed.as_str());
    let mut cs = str_to_chars(lowered.as_str());
    let mut k: usize = 0;
    while k < 19
        invariant
            k <= 19,
            cs@ == substitutions_upto(lowered@, k as int),
        decreases 19 - k,
    {
        let (pat, rep) = substitution_pair(k);
        cs = replace_all(&cs, &pat, &rep);
        k = k + 1;
    }
    chars_to_string(&cs)
}

} // verus!
