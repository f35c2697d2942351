//! Character-level text helpers shared by the resolver, the verifier and the
//! issuer: splitting and joining on a separator, whitespace handling, ordering
//! of strings, decimal rendering.

use vstd::prelude::*;
use vstd::string::*;

verus! {

broadcast use vstd::string::group_string_axioms;

/// The characters of a string, in order.
pub fn chars_of(s: &str) -> (res: Vec<char>)
    ensures
        res@ == s@,
{
    let mut out: Vec<char> = Vec::new();
    for c in it: s.chars()
        invariant
            out@ == it.seq().take(it.index()),
            it.seq() == s@,
    {
        out.push(c);
    }
    out
}

/// `String::push` from std: appends one character.
#[verifier::external_body]
fn push_char(s: &mut String, c: char)
    ensures
        final(s)@ == old(s)@.push(c),
{
    s.push(c);
}

/// The string made of the given characters.
pub fn string_of(cs: &[char]) -> (res: String)
    ensures
        res@ == cs@,
{
    let mut s = String::new();
    let mut i: usize = 0;
    while i < cs.len()
        invariant
            i <= cs@.len(),
            s@ == cs@.take(i as int),
        decreases cs@.len() - i,
    {
        push_char(&mut s, cs[i]);
        i = i + 1;
        assert(s@ =~= cs@.take(i as int));
    }
    assert(cs@.take(cs@.len() as int) =~= cs@);
    s
}


/// `char::is_whitespace`: the Unicode `White_Space` property.
pub open spec fn is_ws(c: char) -> bool {
    let u = c as u32;
    ||| 0x09 <= u <= 0x0D
    ||| u == 0x20
    ||| u == 0x85
    ||| u == 0xA0
    ||| u == 0x1680
    ||| 0x2000 <= u <= 0x200A
    ||| u == 0x2028
    ||| u == 0x2029
    ||| u == 0x202F
    ||| u == 0x205F
    ||| u == 0x3000
}

/// `char::is_whitespace`.
pub fn is_whitespace(c: char) -> (b: bool)
    ensures
        b == is_ws(c),
{
    let u = c as u32;
    (0x09 <= u && u <= 0x0D) || u == 0x20 || u == 0x85 || u == 0xA0 || u == 0x1680 || (0x2000
        <= u && u <= 0x200A) || u == 0x2028 || u == 0x2029 || u == 0x202F || u == 0x205F || u
        == 0x3000
}

/// What `str::to_lowercase` returns for a string (Unicode lower-case mapping).
pub uninterp spec fn lowercase(s: Seq<char>) -> Seq<char>;

/// `str::to_lowercase` from std.
#[verifier::external_body]
pub(crate) fn to_lowercase(s: &str) -> (res: String)
    ensures
        res@ == lowercase(s@),
{
    s.to_lowercase()
}

/// The words of `s` (maximal runs of non-whitespace) joined by single spaces:
/// what `split_whitespace` followed by `join(" ")` gives.
pub open spec fn collapse_ws(s: Seq<char>) -> Seq<char>
    decreases s.len(),
{
    if s.len() == 0 {
        Seq::empty()
    } else {
        let p = collapse_ws(s.drop_last());
        let c = s.last();
        if is_ws(c) {
            p
        } else if p.len() > 0 && is_ws(s[s.len() - 2]) {
            p.push(' ').push(c)
        } else {
            p.push(c)
        }
    }
}

/// `s` without trailing characters that are whitespace.
pub open spec fn trim_end_ws(s: Seq<char>) -> Seq<char>
    decreases s.len(),
{
    if s.len() > 0 && is_ws(s.last()) {
        trim_end_ws(s.drop_last())
    } else {
        s
    }
}

/// `s` without leading characters that are whitespace.
pub open spec fn trim_start_ws(s: Seq<char>) -> Seq<char>
    decreases s.len(),
{
    if s.len() > 0 && is_ws(s[0]) {
        trim_start_ws(s.drop_first())
    } else {
        s
    }
}

/// `str::trim`.
pub open spec fn trim_ws(s: Seq<char>) -> Seq<char> {
    trim_start_ws(trim_end_ws(s))
}

/// One of the terminal punctuation marks `?`, `.`, `!`.
pub open spec fn is_terminal_punct(c: char) -> bool {
    c == '?' || c == '.' || c == '!'
}

/// `s` without its trailing `?`, `.` and `!` characters.
pub open spec fn trim_end_punct(s: Seq<char>) -> Seq<char>
    decreases s.len(),
{
    if s.len() > 0 && is_terminal_punct(s.last()) {
        trim_end_punct(s.drop_last())
    } else {
        s
    }
}

proof fn lemma_collapse_ws_step(s: Seq<char>, i: int)
    requires
        0 < i <= s.len(),
    ensures
        s.take(i).drop_last() == s.take(i - 1),
        s.take(i).last() == s[i - 1],
        i >= 2 ==> s.take(i)[i - 2] == s[i - 2],
{
    assert(s.take(i).drop_last() =~= s.take(i - 1));
}

/// Collapse runs of whitespace to single spaces and drop leading/trailing whitespace.
pub fn collapse_whitespace(cs: &[char]) -> (res: Vec<char>)
    ensures
        res@ == collapse_ws(cs@),
{
    let mut out: Vec<char> = Vec::new();
    let mut i: usize = 0;
    while i < cs.len()
        invariant
            i <= cs@.len(),
            out@ == collapse_ws(cs@.take(i as int)),
        decreases cs@.len() - i,
    {
        let c = cs[i];
        proof {
            lemma_collapse_ws_step(cs@, i + 1);
        }
        if is_whitespace(c) {
        } else if out.len() > 0 && is_whitespace(cs[i - 1]) {
            out.push(' ');
            out.push(c);
        } else {
            out.push(c);
        }
        i = i + 1;
    }
    assert(cs@.take(cs@.len() as int) =~= cs@);
    out
}

/// Drop trailing `?`, `.` and `!` characters.
pub fn strip_terminal_punct(cs: &mut Vec<char>)
    ensures
        final(cs)@ == trim_end_punct(old(cs)@),
{
    while cs.len() > 0 && (cs[cs.len() - 1] == '?' || cs[cs.len() - 1] == '.' || cs[cs.len() - 1]
        == '!')
        invariant
            trim_end_punct(cs@) == trim_end_punct(old(cs)@),
        decreases cs@.len(),
    {
        cs.pop();
    }
}

/// Drop trailing whitespace.
pub fn strip_end_whitespace(cs: &mut Vec<char>)
    ensures
        final(cs)@ == trim_end_ws(old(cs)@),
{
    while cs.len() > 0 && is_whitespace(cs[cs.len() - 1])
        invariant
            trim_end_ws(cs@) == trim_end_ws(old(cs)@),
        decreases cs@.len(),
    {
        cs.pop();
    }
}

/// The characters of `cs` after its leading whitespace.
pub fn skip_start_whitespace(cs: &[char]) -> (res: Vec<char>)
    ensures
        res@ == trim_start_ws(cs@),
{
    let mut i: usize = 0;
    assert(cs@.skip(0) =~= cs@);
    while i < cs.len() && is_whitespace(cs[i])
        invariant
            i <= cs@.len(),
            trim_start_ws(cs@.skip(i as int)) == trim_start_ws(cs@),
        decreases cs@.len() - i,
    {
        assert(cs@.skip(i as int).drop_first() =~= cs@.skip(i + 1));
        i = i + 1;
    }
    let mut out: Vec<char> = Vec::new();
    let start = i;
    while i < cs.len()
        invariant
            start <= i <= cs@.len(),
            out@ == cs@.subrange(start as int, i as int),
        decreases cs@.len() - i,
    {
        out.push(cs[i]);
        i = i + 1;
        assert(out@ =~= cs@.subrange(start as int, i as int));
    }
    assert(cs@.skip(start as int) =~= cs@.subrange(start as int, cs@.len() as int));
    out
}

/// `str::trim`: the string without leading and trailing whitespace.
pub fn trim(s: &str) -> (res: String)
    ensures
        res@ == trim_ws(s@),
{
    let mut cs = chars_of(s);
    strip_end_whitespace(&mut cs);
    let t = skip_start_whitespace(cs.as_slice());
    string_of(t.as_slice())
}


/// The pieces of `s` between occurrences of `sep`, as `str::split` yields them
/// (a string without `sep` is one piece; `n` separators give `n + 1` pieces).
pub open spec fn split_on(s: Seq<char>, sep: char) -> Seq<Seq<char>>
    decreases s.len(),
{
    if s.len() == 0 {
        seq![Seq::empty()]
    } else {
        let p = split_on(s.drop_last(), sep);
        if s.last() == sep {
            p.push(Seq::empty())
        } else {
            p.update(p.len() - 1, p.last().push(s.last()))
        }
    }
}

/// The pieces joined with `sep` between consecutive pieces (`[T]::join`).
pub open spec fn join_with(parts: Seq<Seq<char>>, sep: Seq<char>) -> Seq<char>
    decreases parts.len(),
{
    if parts.len() == 0 {
        Seq::empty()
    } else if parts.len() == 1 {
        parts[0]
    } else {
        join_with(parts.drop_last(), sep) + sep + parts.last()
    }
}

/// The views of a sequence of strings.
pub open spec fn views(v: Seq<String>) -> Seq<Seq<char>> {
    v.map_values(|x: String| x@)
}

/// Views of a pushed sequence.
pub proof fn lemma_views_push(s: Seq<String>, x: String)
    ensures
        views(s.push(x)) == views(s).push(x@),
{
    assert(views(s.push(x)) =~= views(s).push(x@));
}

pub proof fn lemma_split_on_nonempty(s: Seq<char>, sep: char)
    ensures
        split_on(s, sep).len() >= 1,
    decreases s.len(),
{
    if s.len() > 0 {
        lemma_split_on_nonempty(s.drop_last(), sep);
    }
}

/// Text without the separator is a single piece.
pub proof fn lemma_split_free(s: Seq<char>, sep: char)
    requires
        !s.contains(sep),
    ensures
        split_on(s, sep) == seq![s],
    decreases s.len(),
{
    if s.len() > 0 {
        let init = s.drop_last();
        assert(!init.contains(sep)) by {
            if init.contains(sep) {
                let i = choose|i: int| 0 <= i < init.len() && init[i] == sep;
                assert(s[i] == sep);
            }
        }
        lemma_split_free(init, sep);
        assert(s.last() != sep) by {
            assert(s[s.len() - 1] == s.last());
        }
        assert(init.push(s.last()) =~= s);
    } else {
        assert(s =~= Seq::<char>::empty());
    }
}

/// Splitting at a separator splits the two sides separately.
pub proof fn lemma_split_append(a: Seq<char>, b: Seq<char>, sep: char)
    ensures
        split_on(a + seq![sep] + b, sep) == split_on(a, sep) + split_on(b, sep),
    decreases b.len(),
{
    let whole = a + seq![sep] + b;
    if b.len() == 0 {
        assert(whole.drop_last() =~= a);
        assert(whole.last() == sep);
        assert(split_on(b, sep) =~= seq![Seq::<char>::empty()]);
        assert(split_on(a, sep).push(Seq::empty()) =~= split_on(a, sep) + split_on(b, sep));
    } else {
        let b0 = b.drop_last();
        lemma_split_append(a, b0, sep);
        lemma_split_on_nonempty(b0, sep);
        assert(whole.drop_last() =~= a + seq![sep] + b0);
        assert(whole.last() == b.last());
        let pa = split_on(a, sep);
        let pb = split_on(b0, sep);
        if b.last() == sep {
            assert((pa + pb).push(Seq::empty()) =~= pa + pb.push(Seq::empty()));
        } else {
            let p = pa + pb;
            assert(p.last() == pb.last());
            assert(p.update(p.len() - 1, p.last().push(b.last())) =~= pa + pb.update(
                pb.len() - 1,
                pb.last().push(b.last()),
            ));
        }
    }
}

/// Splitting the pieces joined by `sep` gives the pieces back, when no piece
/// holds the separator.
pub proof fn lemma_split_join(parts: Seq<Seq<char>>, sep: char)
    requires
        parts.len() >= 1,
        forall|i: int| 0 <= i < parts.len() ==> !(#[trigger] parts[i]).contains(sep),
    ensures
        split_on(join_with(parts, seq![sep]), sep) == parts,
    decreases parts.len(),
{
    if parts.len() == 1 {
        lemma_split_free(parts[0], sep);
        assert(seq![parts[0]] =~= parts);
    } else {
        let init = parts.drop_last();
        assert forall|i: int| 0 <= i < init.len() implies !(#[trigger] init[i]).contains(sep) by {
            assert(init[i] == parts[i]);
        }
        lemma_split_join(init, sep);
        lemma_split_append(join_with(init, seq![sep]), parts.last(), sep);
        assert(parts[parts.len() - 1] == parts.last());
        lemma_split_free(parts.last(), sep);
        assert(init + seq![parts.last()] =~= parts);
    }
}

/// `a` is a subsequence of `b`: its items occur in `b` in the same order.
pub open spec fn is_subseq<A>(a: Seq<A>, b: Seq<A>) -> bool
    decreases b.len(),
{
    if a.len() == 0 {
        true
    } else if b.len() == 0 {
        false
    } else if a.last() == b.last() && is_subseq(a.drop_last(), b.drop_last()) {
        true
    } else {
        is_subseq(a, b.drop_last())
    }
}

/// A subsequence stays one when the longer sequence grows.
pub proof fn lemma_subseq_push<A>(a: Seq<A>, b: Seq<A>, x: A)
    requires
        is_subseq(a, b),
    ensures
        is_subseq(a, b.push(x)),
{
    assert(b.push(x).drop_last() =~= b);
}

/// A subsequence stays one when both grow by the same item.
pub proof fn lemma_subseq_push_both<A>(a: Seq<A>, b: Seq<A>, x: A)
    requires
        is_subseq(a, b),
    ensures
        is_subseq(a.push(x), b.push(x)),
{
    assert(b.push(x).drop_last() =~= b);
    assert(a.push(x).drop_last() =~= a);
}

/// Every sequence is a subsequence of itself.
pub proof fn lemma_subseq_refl<A>(a: Seq<A>)
    ensures
        is_subseq(a, a),
    decreases a.len(),
{
    if a.len() > 0 {
        lemma_subseq_refl(a.drop_last());
    }
}

/// Split `s` at every occurrence of `sep` (`str::split`).
pub fn split_char(s: &str, sep: char) -> (res: Vec<String>)
    ensures
        views(res@) == split_on(s@, sep),
{
    let cs = chars_of(s);
    let mut pieces: Vec<String> = Vec::new();
    let mut cur: Vec<char> = Vec::new();
    let mut i: usize = 0;
    while i < cs.len()
        invariant
            i <= cs@.len(),
            cs@ == s@,
            views(pieces@).push(cur@) == split_on(cs@.take(i as int), sep),
        decreases cs@.len() - i,
    {
        let c = cs[i];
        proof {
            lemma_collapse_ws_step(cs@, i + 1);
            lemma_split_on_nonempty(cs@.take(i as int), sep);
        }
        let ghost before = views(pieces@).push(cur@);
        if c == sep {
            let piece = string_of(cur.as_slice());
            pieces.push(piece);
            cur = Vec::new();
            assert(views(pieces@).push(cur@) =~= before.push(Seq::empty()));
        } else {
            cur.push(c);
            assert(views(pieces@).push(cur@) =~= before.update(before.len() - 1, before.last().push(c)));
        }
        i = i + 1;
    }
    let piece = string_of(cur.as_slice());
    pieces.push(piece);
    assert(cs@.take(cs@.len() as int) =~= cs@);
    assert(views(pieces@) =~= split_on(s@, sep));
    pieces
}

/// Join the strings with `sep` between consecutive ones.
pub fn join(parts: &[String], sep: &str) -> (res: String)
    ensures
        res@ == join_with(views(parts@), sep@),
{
    let mut out = String::new();
    let mut i: usize = 0;
    while i < parts.len()
        invariant
            i <= parts@.len(),
            out@ == join_with(views(parts@.take(i as int)), sep@),
        decreases parts@.len() - i,
    {
        assert(views(parts@.take(i + 1)).drop_last() =~= views(parts@.take(i as int)));
        if i > 0 {
            out.append(sep);
        }
        out.append(parts[i].as_str());
        i = i + 1;
        assert(views(parts@.take(i as int)).last() == parts@[i - 1]@);
    }
    assert(parts@.take(parts@.len() as int) =~= parts@);
    out
}

/// Number of non-empty strings in a sequence.
pub open spec fn count_nonempty(v: Seq<Seq<char>>) -> nat
    decreases v.len(),
{
    if v.len() == 0 {
        0
    } else {
        count_nonempty(v.drop_last()) + if v.last().len() > 0 {
            1nat
        } else {
            0nat
        }
    }
}

pub proof fn lemma_count_nonempty_le(v: Seq<Seq<char>>)
    ensures
        count_nonempty(v) <= v.len(),
    decreases v.len(),
{
    if v.len() > 0 {
        lemma_count_nonempty_le(v.drop_last());
    }
}

/// Decimal rendering of a natural number (what `Display` gives for unsigned integers).
pub open spec fn decimal(n: nat) -> Seq<char>
    decreases n,
{
    if n < 10 {
        seq![digit_char(n)]
    } else {
        decimal(n / 10).push(digit_char(n % 10))
    }
}

pub open spec fn digit_char(d: nat) -> char {
    (('0' as u32) + d) as char
}

/// The character of a decimal digit.
pub fn digit(d: u8) -> (c: char)
    requires
        d < 10,
    ensures
        c == digit_char(d as nat),
{
    match d {
        0 => '0',
        1 => '1',
        2 => '2',
        3 => '3',
        4 => '4',
        5 => '5',
        6 => '6',
        7 => '7',
        8 => '8',
        _ => '9',
    }
}

/// Decimal rendering of a `usize`.
pub fn usize_to_decimal(n: usize) -> (res: String)
    ensures
        res@ == decimal(n as nat),
    decreases n,
{
    let c = digit((n % 10) as u8);
    let mut s = if n < 10 {
        String::new()
    } else {
        usize_to_decimal(n / 10)
    };
    push_char(&mut s, c);
    s
}


/// `a <= b` in the order of `String`: lexicographic by code point (the order of
/// their UTF-8 bytes).
pub open spec fn str_le(a: Seq<char>, b: Seq<char>) -> bool
    decreases a.len(),
{
    if a.len() == 0 {
        true
    } else if b.len() == 0 {
        false
    } else if a[0] == b[0] {
        str_le(a.drop_first(), b.drop_first())
    } else {
        (a[0] as u32) < (b[0] as u32)
    }
}

/// Every string is at most each later one.
pub open spec fn sorted_strs(v: Seq<Seq<char>>) -> bool {
    forall|i: int, j: int| 0 <= i < j < v.len() ==> str_le(v[i], v[j])
}

/// `<[String]>::sort` from std: a stable sort into the order of `String`.
#[verifier::external_body]
pub(crate) fn sort_strings(v: &mut Vec<String>)
    ensures
        views(final(v)@).to_multiset() == views(old(v)@).to_multiset(),
        final(v)@.len() == old(v)@.len(),
        sorted_strs(views(final(v)@)),
{
    v.sort();
}


/// A copy of a vector of strings.
pub fn clone_strings(v: &Vec<String>) -> (res: Vec<String>)
    ensures
        res@ == v@,
        views(res@) == views(v@),
{
    let mut out: Vec<String> = Vec::new();
    let mut i: usize = 0;
    while i < v.len()
        invariant
            i <= v@.len(),
            out@ == v@.take(i as int),
        decreases v@.len() - i,
    {
        let c = v[i].clone();
        out.push(c);
        i = i + 1;
        assert(out@ =~= v@.take(i as int));
    }
    assert(v@.take(i as int) =~= v@);
    out
}

/// Whether a vector of strings holds one equal to `s`.
pub fn contains_string(v: &Vec<String>, s: &String) -> (res: bool)
    ensures
        res == views(v@).contains(s@),
{
    let mut i: usize = 0;
    while i < v.len()
        invariant
            i <= v@.len(),
            forall|j: int| 0 <= j < i ==> v@[j]@ != s@,
        decreases v@.len() - i,
    {
        if v[i] == *s {
            assert(views(v@)[i as int] == s@);
            return true;
        }
        i = i + 1;
    }
    assert forall|j: int| 0 <= j < views(v@).len() implies views(v@)[j] != s@ by {
        assert(views(v@)[j] == v@[j]@);
    }
    false
}

} // verus!
