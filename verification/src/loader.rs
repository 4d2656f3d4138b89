//! Parsing of OBJ model data: face declarations and line classification.
//!
//! A face line such as `1/2/3 4/5/6 7/8/9` names, for each corner of a
//! triangle, a vertex index and optional texture-coordinate and normal
//! indices, one-based and separated by slashes. The parser splits the line
//! into whitespace-separated corners, each corner into slash-separated
//! fields, reads each field as a decimal index, and converts the columns
//! to zero-based index triples.

use vstd::prelude::*;
use vstd::string::StrSliceExecFns;

verus! {

/// The characters that separate the corners of a face declaration.
pub open spec fn is_face_space(c: char) -> bool {
    c == ' ' || c == '\t' || c == '\r'
}

/// Length of the leading run of non-separator characters of `s`.
pub open spec fn word_len(s: Seq<char>) -> nat
    decreases s.len(),
{
    if s.len() == 0 || is_face_space(s[0]) {
        0
    } else {
        1 + word_len(s.skip(1))
    }
}

pub proof fn lemma_word_len_le(s: Seq<char>)
    ensures
        word_len(s) <= s.len(),
    decreases s.len(),
{
    if !(s.len() == 0 || is_face_space(s[0])) {
        lemma_word_len_le(s.skip(1));
    }
}

/// The maximal runs of non-separator characters of `s`, in order: how a
/// face line decomposes into corner declarations.
pub open spec fn words(s: Seq<char>) -> Seq<Seq<char>>
    decreases s.len(),
    via words_decreases
{
    if s.len() == 0 {
        Seq::empty()
    } else if is_face_space(s[0]) {
        words(s.skip(1))
    } else {
        seq![s.take(word_len(s) as int)] + words(s.skip(word_len(s) as int))
    }
}

#[via_fn]
proof fn words_decreases(s: Seq<char>) {
    if s.len() > 0 && !is_face_space(s[0]) {
        lemma_word_len_le(s);
    }
}

/// Length of the leading run of characters of `s` before a `/`.
pub open spec fn field_len(s: Seq<char>) -> nat
    decreases s.len(),
{
    if s.len() == 0 || s[0] == '/' {
        0
    } else {
        1 + field_len(s.skip(1))
    }
}

pub proof fn lemma_field_len_le(s: Seq<char>)
    ensures
        field_len(s) <= s.len(),
    decreases s.len(),
{
    if !(s.len() == 0 || s[0] == '/') {
        lemma_field_len_le(s.skip(1));
    }
}

/// The fields of one corner declaration, split on `/`. Unlike word
/// splitting, empty fields count, so `1//3` has an empty middle field and
/// the empty declaration has one empty field.
pub open spec fn slash_fields(s: Seq<char>) -> Seq<Seq<char>>
    decreases s.len(),
    via slash_fields_decreases
{
    if field_len(s) == s.len() {
        seq![s]
    } else {
        seq![s.take(field_len(s) as int)] + slash_fields(s.skip(field_len(s) as int + 1))
    }
}

#[via_fn]
proof fn slash_fields_decreases(s: Seq<char>) {
    lemma_field_len_le(s);
}

pub open spec fn is_digit(c: char) -> bool {
    '0' as u32 <= c as u32 && c as u32 <= '9' as u32
}

pub open spec fn digit_val(c: char) -> int {
    c as u32 - '0' as u32
}

pub open spec fn all_digits(s: Seq<char>) -> bool {
    forall|i: int| 0 <= i < s.len() ==> is_digit(#[trigger] s[i])
}

/// The value of a digit string read in base ten.
pub open spec fn dec_val(s: Seq<char>) -> int
    decreases s.len(),
{
    if s.len() == 0 {
        0
    } else {
        dec_val(s.take(s.len() - 1)) * 10 + digit_val(s[s.len() - 1])
    }
}

/// A field stripped of the optional leading `+` sign.
pub open spec fn index_tail(s: Seq<char>) -> Seq<char> {
    if s.len() > 0 && s[0] == '+' {
        s.skip(1)
    } else {
        s
    }
}

/// How one field of a corner declaration reads as an index: an optional
/// leading `+`, then at least one decimal digit, with a value that fits
/// the index type; anything else is not an index.
pub open spec fn parse_index(s: Seq<char>) -> Option<usize> {
    let t = index_tail(s);
    if t.len() > 0 && all_digits(t) && dec_val(t) <= usize::MAX as int {
        Some(dec_val(t) as usize)
    } else {
        None
    }
}

/// A corner declaration is padded with absent fields up to the three that
/// matter: vertex, texture coordinate, normal.
pub open spec fn pad3(fields: Seq<Option<usize>>) -> Seq<Option<usize>> {
    if fields.len() >= 3 {
        fields
    } else {
        fields + Seq::new((3 - fields.len()) as nat, |i: int| None::<usize>)
    }
}

/// How one corner declaration reads: its slash-separated fields, each
/// parsed as an index, padded to at least three.
pub open spec fn corner_fields(w: Seq<char>) -> Seq<Option<usize>> {
    pad3(Seq::new(slash_fields(w).len(), |k: int| parse_index(slash_fields(w)[k])))
}

/// How a whole face line reads: one row per corner, each row that
/// corner's parsed fields.
pub open spec fn face_args(s: Seq<char>) -> Seq<Seq<Option<usize>>> {
    Seq::new(words(s).len(), |i: int| corner_fields(words(s)[i]))
}

/// Padding guarantees every parsed corner at least its three index
/// fields.
pub proof fn lemma_corner_fields_len(w: Seq<char>)
    ensures
        corner_fields(w).len() >= 3,
{
}

/// The index a present field carries (zero for an absent field; only used
/// where the field is known present).
pub open spec fn entry_val(o: Option<usize>) -> usize {
    match o {
        Option::Some(v) => v,
        Option::None => 0,
    }
}

/// One column of the first three rows of a parsed face line, made
/// zero-based: present exactly when the column is present in all three
/// corners, and reversed when the winding order is inverted.
pub open spec fn face_column(args: Seq<Seq<Option<usize>>>, j: int, invert: bool) -> Option<
    Seq<usize>,
> {
    if args[0][j] is Some && args[1][j] is Some && args[2][j] is Some {
        let c = seq![
            (entry_val(args[0][j]) - 1) as usize,
            (entry_val(args[1][j]) - 1) as usize,
            (entry_val(args[2][j]) - 1) as usize,
        ];
        Some(
            if invert {
                seq![c[2], c[1], c[0]]
            } else {
                c
            },
        )
    } else {
        None
    }
}

/// Whether an optional index triple is the given optional column.
pub open spec fn matches_column(o: Option<[usize; 3]>, c: Option<Seq<usize>>) -> bool {
    match (o, c) {
        (Option::Some(a), Option::Some(s)) => a@ == s,
        (Option::None, Option::None) => true,
        _ => false,
    }
}

/// The face lines a `RawFace` can be read from: at least three corners,
/// every corner carrying a vertex index, and every index one-based, so
/// that making it zero-based cannot go below zero.
pub open spec fn valid_face_line(s: Seq<char>) -> bool {
    let args = face_args(s);
    &&& args.len() >= 3
    &&& forall|i: int| 0 <= i < 3 ==> (#[trigger] args[i][0]) is Some
    &&& forall|i: int, j: int|
        0 <= i < 3 && 0 <= j < 3 ==> ((#[trigger] args[i][j]) is Some ==> entry_val(args[i][j])
            >= 1)
}

/// Collects the characters of a string into a vector.
fn str_chars(s: &str) -> (v: Vec<char>)
    ensures
        v@ == s@,
{
    let n = s.unicode_len();
    let mut v: Vec<char> = Vec::new();
    let mut i: usize = 0;
    while i < n
        invariant
            n == s@.len(),
            i <= n,
            v@ == s@.take(i as int),
        decreases n - i,
    {
        let c = s.get_char(i);
        v.push(c);
        proof {
            assert(s@.take(i as int).push(s@[i as int]) =~= s@.take(i + 1));
        }
        i = i + 1;
    }
    proof {
        assert(s@.take(n as int) =~= s@);
    }
    v
}

/// The sequence of character sequences a vector of character vectors
/// holds.
pub open spec fn char_rows(v: Seq<Vec<char>>) -> Seq<Seq<char>> {
    Seq::new(v.len(), |i: int| v[i]@)
}

/// If the first `n` characters of `t` are non-separators and `t` ends or
/// has a separator at `n`, then `n` is exactly the first word's length.
proof fn lemma_word_len_at(t: Seq<char>, n: int)
    requires
        0 <= n <= t.len(),
        forall|k: int| 0 <= k < n ==> !is_face_space(#[trigger] t[k]),
        n == t.len() || is_face_space(t[n]),
    ensures
        word_len(t) == n,
    decreases n,
{
    if n == 0 {
    } else {
        lemma_word_len_at(t.skip(1), n - 1);
    }
}

/// Splits a line into its whitespace-separated words.
fn split_words(s: &Vec<char>) -> (r: Vec<Vec<char>>)
    ensures
        char_rows(r@) == words(s@),
{
    let n = s.len();
    let mut r: Vec<Vec<char>> = Vec::new();
    let mut i: usize = 0;
    proof {
        assert(s@.skip(0) =~= s@);
        assert(char_rows(r@) =~= Seq::<Seq<char>>::empty());
        assert(char_rows(r@) + words(s@) =~= words(s@));
    }
    while i < n
        invariant
            n == s@.len(),
            i <= n,
            words(s@) == char_rows(r@) + words(s@.skip(i as int)),
        decreases n - i,
    {
        if is_sep(s[i]) {
            proof {
                assert(s@.skip(i as int)[0] == s@[i as int]);
                assert(s@.skip(i as int).skip(1) =~= s@.skip(i + 1));
            }
            i = i + 1;
        } else {
            let mut w: Vec<char> = Vec::new();
            let start = i;
            proof {
                assert(s@.subrange(start as int, start as int) =~= Seq::<char>::empty());
            }
            while i < n && !is_sep(s[i])
                invariant
                    n == s@.len(),
                    start <= i <= n,
                    w@ == s@.subrange(start as int, i as int),
                    forall|k: int| start <= k < i ==> !is_face_space(#[trigger] s@[k]),
                decreases n - i,
            {
                let c = s[i];
                w.push(c);
                proof {
                    assert(s@.subrange(start as int, i as int).push(s@[i as int]) =~= s@.subrange(
                        start as int,
                        i + 1,
                    ));
                }
                i = i + 1;
            }
            let ghost pre = r@;
            r.push(w);
            proof {
                let suf = s@.skip(start as int);
                assert forall|k: int| 0 <= k < i - start implies !is_face_space(
                    #[trigger] suf[k],
                ) by {
                    assert(suf[k] == s@[k + start]);
                }
                if i < n {
                    assert(suf[i - start] == s@[i as int]);
                }
                lemma_word_len_at(suf, i - start);
                assert(suf.take(i - start) =~= s@.subrange(start as int, i as int));
                assert(suf.skip(i - start) =~= s@.skip(i as int));
                assert(words(suf) == seq![w@] + words(s@.skip(i as int)));
                assert(char_rows(r@) =~= char_rows(pre).push(w@));
                assert(char_rows(pre) + (seq![w@] + words(s@.skip(i as int))) =~= char_rows(
                    pre,
                ).push(w@) + words(s@.skip(i as int)));
            }
        }
    }
    proof {
        assert(s@.skip(n as int) =~= Seq::<char>::empty());
        assert(words(s@.skip(n as int)) =~= Seq::<Seq<char>>::empty());
        assert(char_rows(r@) + words(s@.skip(n as int)) =~= char_rows(r@));
    }
    r
}

/// Whether `c` separates the corners of a face declaration.
fn is_sep(c: char) -> (r: bool)
    ensures
        r == is_face_space(c),
{
    c == ' ' || c == '\t' || c == '\r'
}

/// If the first `m` characters of `t` precede a `/` and `t` ends or has a
/// `/` at `m`, then `m` is exactly the first field's length.
proof fn lemma_field_len_at(t: Seq<char>, m: int)
    requires
        0 <= m <= t.len(),
        forall|k: int| 0 <= k < m ==> (#[trigger] t[k]) != '/',
        m == t.len() || t[m] == '/',
    ensures
        field_len(t) == m,
    decreases m,
{
    if m > 0 {
        lemma_field_len_at(t.skip(1), m - 1);
    }
}

/// Splits one corner declaration into its slash-separated fields.
fn split_slash(w: &Vec<char>) -> (r: Vec<Vec<char>>)
    ensures
        char_rows(r@) == slash_fields(w@),
{
    let n = w.len();
    let mut r: Vec<Vec<char>> = Vec::new();
    let mut i: usize = 0;
    proof {
        assert(w@.skip(0) =~= w@);
        assert(char_rows(r@) =~= Seq::<Seq<char>>::empty());
        assert(char_rows(r@) + slash_fields(w@) =~= slash_fields(w@));
    }
    loop
        invariant_except_break
            slash_fields(w@) == char_rows(r@) + slash_fields(w@.skip(i as int)),
        invariant
            n == w@.len(),
            i <= n,
        ensures
            slash_fields(w@) == char_rows(r@),
        decreases n - i,
    {
        let mut field: Vec<char> = Vec::new();
        let start = i;
        proof {
            assert(w@.subrange(start as int, start as int) =~= Seq::<char>::empty());
        }
        while i < n && w[i] != '/'
            invariant
                n == w@.len(),
                start <= i <= n,
                field@ == w@.subrange(start as int, i as int),
                forall|k: int| start <= k < i ==> (#[trigger] w@[k]) != '/',
            decreases n - i,
        {
            let c = w[i];
            field.push(c);
            proof {
                assert(w@.subrange(start as int, i as int).push(w@[i as int]) =~= w@.subrange(
                    start as int,
                    i + 1,
                ));
            }
            i = i + 1;
        }
        let ghost pre = r@;
        r.push(field);
        proof {
            let suf = w@.skip(start as int);
            assert forall|k: int| 0 <= k < i - start implies (#[trigger] suf[k]) != '/' by {
                assert(suf[k] == w@[k + start]);
            }
            if i < n {
                assert(suf[i - start] == w@[i as int]);
            }
            lemma_field_len_at(suf, i - start);
            assert(suf.take(i - start) =~= w@.subrange(start as int, i as int));
            assert(char_rows(r@) =~= char_rows(pre).push(field@));
            if i < n {
                assert(suf.skip(i - start + 1) =~= w@.skip(i + 1));
                assert(slash_fields(suf) == seq![field@] + slash_fields(w@.skip(i + 1)));
                assert(char_rows(pre) + (seq![field@] + slash_fields(w@.skip(i + 1)))
                    =~= char_rows(pre).push(field@) + slash_fields(w@.skip(i + 1)));
            } else {
                assert(field_len(suf) == suf.len());
                assert(slash_fields(suf) == seq![field@]);
                assert(char_rows(pre) + seq![field@] =~= char_rows(pre).push(field@));
            }
        }
        if i == n {
            break ;
        }
        i = i + 1;
    }
    r
}

proof fn lemma_dec_val_nonneg(t: Seq<char>)
    requires
        all_digits(t),
    ensures
        dec_val(t) >= 0,
    decreases t.len(),
{
    if t.len() > 0 {
        assert forall|k: int| 0 <= k < t.len() - 1 implies is_digit(
            #[trigger] t.take(t.len() - 1)[k],
        ) by {
            assert(t.take(t.len() - 1)[k] == t[k]);
        }
        lemma_dec_val_nonneg(t.take(t.len() - 1));
    }
}

/// The value of a digit string is at least the value of any prefix of it.
proof fn lemma_dec_val_monotone(t: Seq<char>, m: int)
    requires
        0 <= m <= t.len(),
        all_digits(t),
    ensures
        dec_val(t.take(m)) <= dec_val(t),
    decreases t.len() - m,
{
    if m == t.len() {
        assert(t.take(m) =~= t);
    } else {
        let p = t.take(m + 1);
        assert forall|k: int| 0 <= k < p.len() implies is_digit(#[trigger] p[k]) by {
            assert(p[k] == t[k]);
        }
        assert(p.take(m) =~= t.take(m));
        lemma_dec_val_nonneg(p.take(m));
        assert(dec_val(p) == dec_val(t.take(m)) * 10 + digit_val(t[m]));
        assert(dec_val(t.take(m)) * 10 >= dec_val(t.take(m)));
        lemma_dec_val_monotone(t, m + 1);
    }
}

/// Reads one slash-separated field as a decimal index, exactly as
/// `parse_index` lays down.
fn parse_field(f: &Vec<char>) -> (r: Option<usize>)
    ensures
        r == parse_index(f@),
{
    let n = f.len();
    let has_plus = n > 0 && f[0] == '+';
    let start: usize = if has_plus {
        1
    } else {
        0
    };
    let ghost t = index_tail(f@);
    proof {
        assert(t.len() == n - start);
        assert(forall|m: int| start <= m < n ==> t[m - start] == f@[m]);
        assert(t.take(0) =~= Seq::<char>::empty());
    }
    if start == n {
        return None;
    }
    let mut val: usize = 0;
    let mut k: usize = start;
    while k < n
        invariant
            n == f@.len(),
            start <= k <= n,
            start < n,
            start == 0 || start == 1,
            t == index_tail(f@),
            t.len() == n - start,
            forall|m: int| start <= m < n ==> t[m - start] == f@[m],
            forall|m: int| start <= m < k ==> is_digit(#[trigger] f@[m]),
            val == dec_val(t.take(k - start)),
        decreases n - k,
    {
        let c = f[k];
        let cu = c as u32;
        if cu < '0' as u32 || cu > '9' as u32 {
            proof {
                assert(t[k - start] == f@[k as int]);
                assert(!is_digit(t[k - start]));
                assert(!all_digits(t));
            }
            return None;
        }
        let d = (cu - '0' as u32) as usize;
        proof {
            assert(d == digit_val(f@[k as int]));
            assert(0 <= d <= 9);
        }
        if val > (usize::MAX - d) / 10 {
            proof {
                let m = k - start;
                assert(t.take(m + 1).take(m) =~= t.take(m));
                assert(t.take(m + 1)[m] == t[m]);
                assert(t[m] == f@[k as int]);
                assert(dec_val(t.take(m + 1)) == val * 10 + digit_val(t[m]));
                assert(val * 10 + d > usize::MAX) by (nonlinear_arith)
                    requires
                        val > (usize::MAX - d) / 10,
                        0 <= d <= 9,
                        d <= usize::MAX,
                ;
                if all_digits(t) {
                    lemma_dec_val_monotone(t, m + 1);
                    assert(dec_val(t) > usize::MAX as int);
                }
                assert(parse_index(f@) is None);
            }
            return None;
        }
        proof {
            assert(val * 10 + d <= usize::MAX) by (nonlinear_arith)
                requires
                    val <= (usize::MAX - d) / 10,
                    0 <= d <= 9,
                    d <= usize::MAX,
            ;
        }
        let ghost old_val = val;
        val = val * 10 + d;
        k = k + 1;
        proof {
            let m = k - start;
            assert(t.take(m).take(m - 1) =~= t.take(m - 1));
            assert(t.take(m)[m - 1] == t[m - 1]);
            assert(t[m - 1] == f@[k - 1]);
            assert(dec_val(t.take(m)) == old_val * 10 + digit_val(t[m - 1]));
        }
    }
    proof {
        assert(t.take(n - start) =~= t);
        assert forall|m: int| 0 <= m < t.len() implies is_digit(#[trigger] t[m]) by {
            assert(t[m] == f@[m + start]);
            assert(is_digit(f@[m + start]));
        }
        assert(t.len() > 0);
        assert(dec_val(t) == val);
    }
    Some(val)
}

/// The sequence of rows a vector of parsed-field vectors holds.
pub open spec fn opt_rows(v: Seq<Vec<Option<usize>>>) -> Seq<Seq<Option<usize>>> {
    Seq::new(v.len(), |i: int| v[i]@)
}

/// One triangular face read from an OBJ `f` line: for each corner a
/// zero-based vertex index, and, when the line carries them for every
/// corner, zero-based normal and texture-coordinate indices.
#[derive(Clone, Copy, Debug, PartialEq, Eq)]
pub struct RawFace {
    pub vertex_indices: [usize; 3],
    pub normal_indices: Option<[usize; 3]>,
    pub tex_coord_indices: Option<[usize; 3]>,
}

impl RawFace {
    /// Parses the corner declarations of a face line, one row per corner
    /// in the format `v/vt/vn v/vt/vn v/vt/vn`, each row padded with
    /// absent fields to at least three.
    pub fn parse_args(input: &str) -> (r: Vec<Vec<Option<usize>>>)
        ensures
            opt_rows(r@) == face_args(input@),
    {
        let chars = str_chars(input);
        let ws = split_words(&chars);
        let n = ws.len();
        let mut r: Vec<Vec<Option<usize>>> = Vec::new();
        let mut i: usize = 0;
        while i < n
            invariant
                n == ws@.len(),
                i <= n,
                char_rows(ws@) == words(input@),
                r@.len() == i,
                forall|a: int| 0 <= a < i ==> (#[trigger] r@[a])@ == face_args(input@)[a],
            decreases n - i,
        {
            let w = &ws[i];
            let ghost wseq = ws@[i as int]@;
            proof {
                assert(wseq == words(input@)[i as int]);
            }
            let fs = split_slash(w);
            let m = fs.len();
            let mut row: Vec<Option<usize>> = Vec::new();
            let mut j: usize = 0;
            while j < m
                invariant
                    m == fs@.len(),
                    j <= m,
                    char_rows(fs@) == slash_fields(wseq),
                    row@.len() == j,
                    forall|k: int|
                        0 <= k < j ==> (#[trigger] row@[k]) == parse_index(
                            slash_fields(wseq)[k],
                        ),
                decreases m - j,
            {
                let v = parse_field(&fs[j]);
                proof {
                    assert(fs@[j as int]@ == slash_fields(wseq)[j as int]);
                }
                row.push(v);
                j = j + 1;
            }
            let ghost mapped = Seq::new(
                slash_fields(wseq).len(),
                |k: int| parse_index(slash_fields(wseq)[k]),
            );
            proof {
                assert(row@ =~= mapped);
            }
            while row.len() < 3
                invariant
                    mapped.len() <= row@.len(),
                    row@.len() <= 3 || row@.len() == mapped.len(),
                    forall|k: int|
                        0 <= k < row@.len() ==> (#[trigger] row@[k]) == (if k < mapped.len() {
                            mapped[k]
                        } else {
                            None
                        }),
                decreases 3 - row@.len(),
            {
                row.push(None);
            }
            proof {
                assert(row@ =~= pad3(mapped));
                assert(row@ == corner_fields(wseq));
            }
            r.push(row);
            i = i + 1;
        }
        proof {
            assert(opt_rows(r@) =~= face_args(input@));
        }
        r
    }

    /// Collects one column of the first three parsed corners, made
    /// zero-based: all three of the column's fields when each corner
    /// carries one, in corner order or reversed when the winding order is
    /// inverted; nothing when any corner leaves the column out.
    pub fn get_indices(input: &Vec<Vec<Option<usize>>>, data_type_idx: usize, invert: bool) -> (r:
        Option<[usize; 3]>)
        requires
            input@.len() >= 3,
            forall|i: int| 0 <= i < 3 ==> (#[trigger] input@[i])@.len() > data_type_idx,
            forall|i: int|
                0 <= i < 3 ==> ((#[trigger] input@[i])@[data_type_idx as int] is Some
                    ==> entry_val(input@[i]@[data_type_idx as int]) >= 1),
        ensures
            matches_column(r, face_column(opt_rows(input@), data_type_idx as int, invert)),
    {
        let a0 = input[0][data_type_idx];
        let a1 = input[1][data_type_idx];
        let a2 = input[2][data_type_idx];
        match (a0, a1, a2) {
            (Some(v0), Some(v1), Some(v2)) => {
                let x0 = v0 - 1;
                let x1 = v1 - 1;
                let x2 = v2 - 1;
                if invert {
                    Some([x2, x1, x0])
                } else {
                    Some([x0, x1, x2])
                }
            },
            _ => None,
        }
    }

    /// Reads a face declaration such as `1/2/3 4/5/6 7/8/9`. Only lines
    /// that `valid_face_line` admits can be read; `try_from_str` tests
    /// any line first.
    pub fn from_str(input: &str, invert: bool) -> (r: RawFace)
        requires
            valid_face_line(input@),
        ensures
            matches_column(
                Some(r.vertex_indices),
                face_column(face_args(input@), 0, invert),
            ),
            matches_column(r.tex_coord_indices, face_column(face_args(input@), 1, invert)),
            matches_column(r.normal_indices, face_column(face_args(input@), 2, invert)),
    {
        let args = Self::parse_args(input);
        let v = Self::get_indices(&args, 0, invert);
        let t = Self::get_indices(&args, 1, invert);
        let nr = Self::get_indices(&args, 2, invert);
        RawFace { vertex_indices: v.unwrap(), tex_coord_indices: t, normal_indices: nr }
    }

    /// Reads a face declaration if the line is one that a `RawFace` can
    /// be read from, and reports an unreadable line instead of demanding
    /// anything of it.
    pub fn try_from_str(input: &str, invert: bool) -> (r: Option<RawFace>)
        ensures
            r is Some <==> valid_face_line(input@),
            match r {
                Option::Some(face) => {
                    &&& matches_column(
                        Some(face.vertex_indices),
                        face_column(face_args(input@), 0, invert),
                    )
                    &&& matches_column(
                        face.tex_coord_indices,
                        face_column(face_args(input@), 1, invert),
                    )
                    &&& matches_column(
                        face.normal_indices,
                        face_column(face_args(input@), 2, invert),
                    )
                },
                Option::None => true,
            },
    {
        let args = Self::parse_args(input);
        if args.len() < 3 {
            return None;
        }
        let mut i: usize = 0;
        while i < 3
            invariant
                opt_rows(args@) == face_args(input@),
                args@.len() >= 3,
                i <= 3,
                forall|a: int| 0 <= a < i ==> (#[trigger] face_args(input@)[a][0]) is Some,
                forall|a: int, b: int|
                    0 <= a < i && 0 <= b < 3 ==> ((#[trigger] face_args(input@)[a][b]) is Some
                        ==> entry_val(face_args(input@)[a][b]) >= 1),
            decreases 3 - i,
        {
            let mut j: usize = 0;
            while j < 3
                invariant
                    opt_rows(args@) == face_args(input@),
                    args@.len() >= 3,
                    i < 3,
                    j <= 3,
                    forall|b: int|
                        0 <= b < j ==> ((#[trigger] face_args(input@)[i as int][b]) is Some
                            ==> entry_val(face_args(input@)[i as int][b]) >= 1),
                    forall|b: int|
                        0 <= b < j && b == 0 ==> (#[trigger] face_args(
                            input@,
                        )[i as int][b]) is Some,
                decreases 3 - j,
            {
                proof {
                    lemma_corner_fields_len(words(input@)[i as int]);
                    assert(face_args(input@).len() == words(input@).len());
                    assert(i < words(input@).len());
                    assert(face_args(input@)[i as int] == corner_fields(
                        words(input@)[i as int],
                    ));
                    assert(args@[i as int]@ == face_args(input@)[i as int]);
                    assert(args@[i as int]@.len() >= 3);
                }
                match args[i][j] {
                    Option::Some(v) => {
                        if v < 1 {
                            proof {
                                assert(face_args(input@)[i as int][j as int] is Some
                                    && entry_val(face_args(input@)[i as int][j as int]) < 1);
                            }
                            return None;
                        }
                    },
                    Option::None => {
                        if j == 0 {
                            proof {
                                assert(!(face_args(input@)[i as int][0] is Some));
                            }
                            return None;
                        }
                    },
                }
                j = j + 1;
            }
            i = i + 1;
        }
        Some(Self::from_str(input, invert))
    }
}

/// What an OBJ line declares, told apart by its two leading characters.
#[derive(Clone, Copy, Debug, PartialEq, Eq, Structural)]
pub enum ObjLineKind {
    ObjectName,
    Vertex,
    Normal,
    TexCoord,
    Face,
    Other,
}

/// The declaration a line of an OBJ file carries: `o ` names the object,
/// `v ` a vertex, `vn` a normal, `vt` a texture coordinate, `f ` a face;
/// anything else, including a line too short to tell, carries none.
pub open spec fn obj_line_kind(s: Seq<char>) -> ObjLineKind {
    if s.len() < 2 {
        ObjLineKind::Other
    } else if s[0] == 'o' && s[1] == ' ' {
        ObjLineKind::ObjectName
    } else if s[0] == 'v' && s[1] == ' ' {
        ObjLineKind::Vertex
    } else if s[0] == 'v' && s[1] == 'n' {
        ObjLineKind::Normal
    } else if s[0] == 'v' && s[1] == 't' {
        ObjLineKind::TexCoord
    } else if s[0] == 'f' && s[1] == ' ' {
        ObjLineKind::Face
    } else {
        ObjLineKind::Other
    }
}

/// Tells what a line of an OBJ file declares from its leading characters.
pub fn classify_obj_line(line: &str) -> (r: ObjLineKind)
    ensures
        r == obj_line_kind(line@),
{
    let n = line.unicode_len();
    if n < 2 {
        return ObjLineKind::Other;
    }
    let c0 = line.get_char(0);
    let c1 = line.get_char(1);
    if c0 == 'o' && c1 == ' ' {
        ObjLineKind::ObjectName
    } else if c0 == 'v' && c1 == ' ' {
        ObjLineKind::Vertex
    } else if c0 == 'v' && c1 == 'n' {
        ObjLineKind::Normal
    } else if c0 == 'v' && c1 == 't' {
        ObjLineKind::TexCoord
    } else if c0 == 'f' && c1 == ' ' {
        ObjLineKind::Face
    } else {
        ObjLineKind::Other
    }
}

} // verus!
