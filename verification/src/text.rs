//! Character sequences: the small vocabulary of text operations that the
//! rest of the crate states its contracts in.

use vstd::prelude::*;

verus! {

/// `String::push` appends one character to the end of the string.
pub assume_specification[ String::push ](s: &mut String, c: char)
    ensures
        final(s)@ == old(s)@.push(c),
;

/// The characters of `s`, in order.
pub fn chars_of(s: &str) -> (r: Vec<char>)
    ensures
        r@ == s@,
{
    let mut out: Vec<char> = Vec::new();
    for c in it: s.chars()
        invariant
            out@ == it.seq().take(it.index()),
            it.seq() == s@,
    {
        out.push(c);
    }
    out
}

/// The views of a sequence of strings.
pub open spec fn texts(v: Seq<String>) -> Seq<Seq<char>> {
    v.map_values(|s: String| s@)
}

/// `s` cut at every occurrence of `sep`. There is always at least one
/// piece, no piece holds `sep`, and joining the pieces with `sep` gives `s`
/// back (see `lemma_split_pieces` and `lemma_join_split`).
pub open spec fn split(s: Seq<char>, sep: char) -> Seq<Seq<char>>
    decreases s.len(),
{
    if s.len() == 0 {
        seq![Seq::empty()]
    } else {
        let before = split(s.drop_last(), sep);
        if s.last() == sep {
            before.push(Seq::empty())
        } else {
            before.drop_last().push(before.last().push(s.last()))
        }
    }
}

/// The pieces of `parts` in order, with `sep` between each two neighbours.
pub open spec fn join(parts: Seq<Seq<char>>, sep: Seq<char>) -> Seq<char>
    decreases parts.len(),
{
    if parts.len() == 0 {
        Seq::empty()
    } else if parts.len() == 1 {
        parts[0]
    } else {
        join(parts.drop_last(), sep) + sep + parts.last()
    }
}

/// A split always yields at least one piece, and no piece holds the
/// separator.
pub proof fn lemma_split_pieces(s: Seq<char>, sep: char)
    ensures
        split(s, sep).len() >= 1,
        forall|i: int| 0 <= i < split(s, sep).len() ==> !(#[trigger] split(s, sep)[i]).contains(sep),
    decreases s.len(),
{
    if s.len() > 0 {
        lemma_split_pieces(s.drop_last(), sep);
        let before = split(s.drop_last(), sep);
        if s.last() != sep {
            let grown = before.last().push(s.last());
            assert forall|j: int| 0 <= j < grown.len() implies grown[j] != sep by {
                if j < before.last().len() {
                    assert(before.last().contains(grown[j]));
                }
            }
        }
    }
}

/// Joining the pieces of a split with the separator restores the text.
pub proof fn lemma_join_split(s: Seq<char>, sep: char)
    ensures
        join(split(s, sep), seq![sep]) == s,
    decreases s.len(),
{
    if s.len() == 0 {
        assert(join(seq![Seq::<char>::empty()], seq![sep]) == Seq::<char>::empty());
    } else {
        lemma_join_split(s.drop_last(), sep);
        lemma_split_pieces(s.drop_last(), sep);
        let before = split(s.drop_last(), sep);
        let last = s.last();
        if last == sep {
            let after = before.push(Seq::empty());
            assert(after.drop_last() == before);
            assert(join(after, seq![sep]) == s.drop_last() + seq![sep] + Seq::<char>::empty());
            assert(s == s.drop_last() + seq![sep] + Seq::<char>::empty());
        } else {
            let after = before.drop_last().push(before.last().push(last));
            if before.len() == 1 {
                assert(join(before, seq![sep]) == before[0]);
                assert(join(after, seq![sep]) == before[0].push(last));
                assert(s == s.drop_last().push(last));
            } else {
                assert(after.drop_last() == before.drop_last());
                assert(join(after, seq![sep]) == join(before.drop_last(), seq![sep]) + seq![sep]
                    + before.last().push(last));
                assert(join(before, seq![sep]) == join(before.drop_last(), seq![sep]) + seq![sep]
                    + before.last());
                assert(s == s.drop_last().push(last));
            }
        }
    }
}

/// A text without the separator is its own single piece.
pub proof fn lemma_split_whole(s: Seq<char>, sep: char)
    requires
        !s.contains(sep),
    ensures
        split(s, sep) == seq![s],
    decreases s.len(),
{
    if s.len() == 0 {
        assert(s == Seq::<char>::empty());
    } else {
        assert forall|i: int| 0 <= i < s.drop_last().len() implies s.drop_last()[i] != sep by {
            assert(s.contains(s[i]));
        }
        lemma_split_whole(s.drop_last(), sep);
        assert(s.contains(s.last()));
        assert(s.drop_last().push(s.last()) == s);
        assert(seq![s.drop_last()].drop_last() == Seq::<Seq<char>>::empty());
        assert(Seq::<Seq<char>>::empty().push(s) == seq![s]);
    }
}

/// The pieces of two texts with a separator between them are the pieces of
/// the first and then those of the second.
pub proof fn lemma_split_around(a: Seq<char>, b: Seq<char>, sep: char)
    ensures
        split(a + seq![sep] + b, sep) == split(a, sep) + split(b, sep),
    decreases b.len(),
{
    let whole = a + seq![sep] + b;
    if b.len() == 0 {
        assert(whole.drop_last() == a);
        assert(split(b, sep) == seq![Seq::<char>::empty()]);
        assert(split(a, sep).push(Seq::empty()) == split(a, sep) + seq![Seq::<char>::empty()]);
    } else {
        lemma_split_around(a, b.drop_last(), sep);
        lemma_split_pieces(b.drop_last(), sep);
        assert(whole.drop_last() == a + seq![sep] + b.drop_last());
        assert(whole.last() == b.last());
        let left = split(a, sep);
        let right = split(b.drop_last(), sep);
        if b.last() == sep {
            assert((left + right).push(Seq::empty()) == left + right.push(Seq::empty()));
        } else {
            assert((left + right).drop_last() == left + right.drop_last());
            assert((left + right).last() == right.last());
            assert((left + right.drop_last()).push(right.last().push(b.last())) == left
                + right.drop_last().push(right.last().push(b.last())));
        }
    }
}

/// Splitting undoes joining: pieces that hold no separator, and of which
/// there is at least one, are the pieces of what they join to.
pub proof fn lemma_split_join(parts: Seq<Seq<char>>, sep: char)
    requires
        parts.len() >= 1,
        forall|i: int| 0 <= i < parts.len() ==> !(#[trigger] parts[i]).contains(sep),
    ensures
        split(join(parts, seq![sep]), sep) == parts,
    decreases parts.len(),
{
    if parts.len() == 1 {
        lemma_split_whole(parts[0], sep);
        assert(seq![parts[0]] == parts);
    } else {
        let before = parts.drop_last();
        assert forall|i: int| 0 <= i < before.len() implies !(#[trigger] before[i]).contains(
            sep,
        ) by {
            assert(before[i] == parts[i]);
        }
        lemma_split_join(before, sep);
        lemma_split_around(join(before, seq![sep]), parts.last(), sep);
        lemma_split_whole(parts.last(), sep);
        assert(before + seq![parts.last()] == parts);
    }
}

/// The pieces of `s` between occurrences of `sep`.
pub fn split_str(s: &str, sep: char) -> (r: Vec<String>)
    ensures
        texts(r@) == split(s@, sep),
{
    let mut parts: Vec<String> = Vec::new();
    let mut current = String::new();
    assert(s@.take(0) == Seq::<char>::empty());
    for c in it: s.chars()
        invariant
            it.seq() == s@,
            texts(parts@).push(current@) == split(s@.take(it.index()), sep),
    {
        proof {
            let next = s@.take(it.index() + 1);
            assert(next.drop_last() == s@.take(it.index()));
            assert(next.last() == c);
            assert(texts(parts@).push(current@).drop_last() == texts(parts@));
            if c == sep {
                assert(texts(parts@.push(current)) == texts(parts@).push(current@));
            }
        }
        if c == sep {
            parts.push(current);
            current = String::new();
        } else {
            current.push(c);
        }
    }
    proof {
        assert(s@.take(s@.len() as int) == s@);
        assert(texts(parts@.push(current)) == texts(parts@).push(current@));
    }
    parts.push(current);
    parts
}

/// The strings of `parts` with `sep` between neighbours.
pub fn join_strs(parts: &Vec<String>, sep: &str) -> (r: String)
    ensures
        r@ == join(texts(parts@), sep@),
{
    let ghost all = texts(parts@);
    let mut out = String::new();
    let mut i: usize = 0;
    assert(all.take(0) == Seq::<Seq<char>>::empty());
    while i < parts.len()
        invariant
            i <= parts.len(),
            all == texts(parts@),
            out@ == join(all.take(i as int), sep@),
        decreases parts.len() - i,
    {
        proof {
            let next = all.take(i + 1);
            assert(next.drop_last() == all.take(i as int));
            assert(next.last() == parts@[i as int]@);
            if i == 0 {
                assert(join(next, sep@) == next[0]);
            }
        }
        if i > 0 {
            out.append(sep);
        }
        out.append(parts[i].as_str());
        i += 1;
    }
    assert(all.take(parts.len() as int) == all);
    out
}

/// A copy of a list of strings.
pub fn copy_strs(list: &Vec<String>) -> (r: Vec<String>)
    ensures
        texts(r@) == texts(list@),
{
    let mut out: Vec<String> = Vec::new();
    let mut i: usize = 0;
    while i < list.len()
        invariant
            i <= list.len(),
            texts(out@) == texts(list@).take(i as int),
        decreases list.len() - i,
    {
        let item = list[i].clone();
        assert(texts(list@).take(i + 1) == texts(list@).take(i as int).push(item@));
        assert(texts(out@.push(item)) == texts(out@).push(item@));
        out.push(item);
        i += 1;
    }
    assert(texts(list@).take(list.len() as int) == texts(list@));
    out
}

/// The characters of `v` from position `from` up to, not including, `to`.
pub fn string_of_range(v: &Vec<char>, from: usize, to: usize) -> (r: String)
    requires
        from <= to <= v.len(),
    ensures
        r@ == v@.subrange(from as int, to as int),
{
    let mut out = String::new();
    let mut i: usize = from;
    while i < to
        invariant
            from <= i <= to <= v.len(),
            out@ == v@.subrange(from as int, i as int),
        decreases to - i,
    {
        out.push(v[i]);
        i += 1;
    }
    out
}

/// Whether two strings hold the same characters.
pub fn same_text(a: &str, b: &str) -> (r: bool)
    ensures
        r == (a@ == b@),
{
    let x = chars_of(a);
    let y = chars_of(b);
    if x.len() != y.len() {
        return false;
    }
    let mut i: usize = 0;
    while i < x.len()
        invariant
            i <= x.len(),
            x.len() == y.len(),
            x@ == a@,
            y@ == b@,
            x@.take(i as int) == y@.take(i as int),
        decreases x.len() - i,
    {
        if x[i] != y[i] {
            return false;
        }
        assert(x@.take(i + 1) == x@.take(i as int).push(x@[i as int]));
        assert(y@.take(i + 1) == y@.take(i as int).push(y@[i as int]));
        i += 1;
    }
    assert(x@.take(x.len() as int) == x@);
    assert(y@.take(y.len() as int) == y@);
    true
}

/// Whether `c` is white space as Unicode defines it (`White_Space`).
pub open spec fn is_whitespace(c: char) -> bool {
    let n = c as u32;
    ||| 0x09 <= n <= 0x0D
    ||| n == 0x20
    ||| n == 0x85
    ||| n == 0xA0
    ||| n == 0x1680
    ||| 0x2000 <= n <= 0x200A
    ||| n == 0x2028
    ||| n == 0x2029
    ||| n == 0x202F
    ||| n == 0x205F
    ||| n == 0x3000
}

/// Whether `c` is white space.
pub fn whitespace(c: char) -> (r: bool)
    ensures
        r == is_whitespace(c),
{
    let n: u32 = c as u32;
    (0x09 <= n && n <= 0x0D) || n == 0x20 || n == 0x85 || n == 0xA0 || n == 0x1680 || (0x2000 <= n
        && n <= 0x200A) || n == 0x2028 || n == 0x2029 || n == 0x202F || n == 0x205F || n == 0x3000
}

/// `s` without the white space at its end.
pub open spec fn trim_end(s: Seq<char>) -> Seq<char>
    decreases s.len(),
{
    if s.len() > 0 && is_whitespace(s.last()) {
        trim_end(s.drop_last())
    } else {
        s
    }
}

/// `s` without the white space at its start.
pub open spec fn trim_start(s: Seq<char>) -> Seq<char>
    decreases s.len(),
{
    if s.len() > 0 && is_whitespace(s.first()) {
        trim_start(s.drop_first())
    } else {
        s
    }
}

/// `s` without the white space at either end.
pub open spec fn trim(s: Seq<char>) -> Seq<char> {
    trim_start(trim_end(s))
}

/// `s` without white space at either end.
pub fn trim_str(s: &str) -> (r: String)
    ensures
        r@ == trim(s@),
{
    let v = chars_of(s);
    let mut end: usize = v.len();
    assert(v@.take(end as int) == v@);
    while end > 0 && whitespace(v[end - 1])
        invariant
            end <= v.len(),
            trim_end(v@) == trim_end(v@.take(end as int)),
        decreases end,
    {
        assert(v@.take(end as int).drop_last() == v@.take(end - 1));
        end -= 1;
    }
    let mut start: usize = 0;
    assert(v@.subrange(0, end as int) == v@.take(end as int));
    while start < end && whitespace(v[start])
        invariant
            start <= end <= v.len(),
            trim_start(trim_end(v@)) == trim_start(v@.subrange(start as int, end as int)),
            trim_end(v@) == v@.take(end as int),
        decreases end - start,
    {
        assert(v@.subrange(start as int, end as int).drop_first() == v@.subrange(
            start + 1,
            end as int,
        ));
        start += 1;
    }
    string_of_range(&v, start, end)
}

/// The words of `s` that are complete, and the word at its end that a
/// further character could still extend.
pub open spec fn scan_words(s: Seq<char>) -> (Seq<Seq<char>>, Seq<char>)
    decreases s.len(),
{
    if s.len() == 0 {
        (Seq::empty(), Seq::empty())
    } else {
        let (done, current) = scan_words(s.drop_last());
        if !is_whitespace(s.last()) {
            (done, current.push(s.last()))
        } else if current.len() > 0 {
            (done.push(current), Seq::empty())
        } else {
            (done, current)
        }
    }
}

/// The words of `s`: its longest runs of characters that are not white
/// space, in order.
pub open spec fn words(s: Seq<char>) -> Seq<Seq<char>> {
    let (done, current) = scan_words(s);
    if current.len() > 0 {
        done.push(current)
    } else {
        done
    }
}

/// Whether `w` holds no white space.
pub open spec fn solid(w: Seq<char>) -> bool {
    forall|k: int| 0 <= k < w.len() ==> !is_whitespace(#[trigger] w[k])
}

/// No word is empty, and none holds white space.
pub proof fn lemma_words(s: Seq<char>)
    ensures
        forall|i: int|
            0 <= i < words(s).len() ==> (#[trigger] words(s)[i]).len() > 0 && solid(words(s)[i]),
{
    lemma_scan_words(s);
}

proof fn lemma_scan_words(s: Seq<char>)
    ensures
        forall|i: int|
            0 <= i < scan_words(s).0.len() ==> (#[trigger] scan_words(s).0[i]).len() > 0 && solid(
                scan_words(s).0[i],
            ),
        solid(scan_words(s).1),
    decreases s.len(),
{
    if s.len() > 0 {
        lemma_scan_words(s.drop_last());
        let (done, current) = scan_words(s.drop_last());
        if !is_whitespace(s.last()) {
            let grown = current.push(s.last());
            assert forall|k: int| 0 <= k < grown.len() implies !is_whitespace(
                #[trigger] grown[k],
            ) by {
                if k < current.len() {
                    assert(grown[k] == current[k]);
                }
            }
        } else if current.len() > 0 {
            let more = done.push(current);
            assert forall|i: int| 0 <= i < more.len() implies (#[trigger] more[i]).len() > 0
                && solid(more[i]) by {
                if i < done.len() {
                    assert(more[i] == done[i]);
                }
            }
        }
    }
}

/// The words of `s`.
pub fn words_of(s: &str) -> (r: Vec<String>)
    ensures
        texts(r@) == words(s@),
{
    let mut done: Vec<String> = Vec::new();
    let mut current = String::new();
    let ghost mut n: nat = 0;
    assert(s@.take(0) == Seq::<char>::empty());
    assert(texts(done@) == Seq::<Seq<char>>::empty());
    for c in it: s.chars()
        invariant
            it.seq() == s@,
            n == current@.len(),
            (texts(done@), current@) == scan_words(s@.take(it.index())),
    {
        proof {
            let next = s@.take(it.index() + 1);
            assert(next.drop_last() == s@.take(it.index()));
            assert(next.last() == c);
            assert(texts(done@.push(current)) == texts(done@).push(current@));
        }
        if !whitespace(c) {
            current.push(c);
            proof {
                n = n + 1;
            }
        } else if current.as_str().unicode_len() > 0 {
            done.push(current);
            current = String::new();
            proof {
                n = 0;
            }
        }
    }
    assert(s@.take(s@.len() as int) == s@);
    if current.as_str().unicode_len() > 0 {
        assert(texts(done@.push(current)) == texts(done@).push(current@));
        done.push(current);
    }
    done
}

/// The first word of `s`; empty if it has none.
pub open spec fn first_word(s: Seq<char>) -> Seq<char> {
    if words(s).len() > 0 {
        words(s)[0]
    } else {
        Seq::empty()
    }
}

/// The first word of `s`.
pub fn first_word_str(s: &str) -> (r: String)
    ensures
        r@ == first_word(s@),
{
    let all = words_of(s);
    if all.len() > 0 {
        all[0].clone()
    } else {
        String::new()
    }
}

/// `s` after taking `pat` off its end as often as it stands there. An empty
/// `pat` takes nothing off.
pub open spec fn strip_suffix_all(s: Seq<char>, pat: Seq<char>) -> Seq<char>
    decreases s.len(),
{
    if pat.len() > 0 && pat.is_suffix_of(s) {
        strip_suffix_all(s.take(s.len() - pat.len()), pat)
    } else {
        s
    }
}

/// `s` after taking `pat` off its start as often as it stands there. An
/// empty `pat` takes nothing off.
pub open spec fn strip_prefix_all(s: Seq<char>, pat: Seq<char>) -> Seq<char>
    decreases s.len(),
{
    if pat.len() > 0 && pat.is_prefix_of(s) {
        strip_prefix_all(s.skip(pat.len() as int), pat)
    } else {
        s
    }
}

/// Whether `pat` stands in `v` at position `at`.
fn matches_at(v: &Vec<char>, at: usize, pat: &Vec<char>) -> (r: bool)
    requires
        at <= v.len(),
    ensures
        r == (at + pat.len() <= v.len() && v@.subrange(at as int, at + pat.len()) == pat@),
{
    if pat.len() > v.len() - at {
        return false;
    }
    let mut i: usize = 0;
    while i < pat.len()
        invariant
            i <= pat.len(),
            at + pat.len() <= v.len(),
            v@.subrange(at as int, at + i) == pat@.take(i as int),
        decreases pat.len() - i,
    {
        if v[at + i] != pat[i] {
            assert(v@.subrange(at as int, at + pat.len())[i as int] != pat@[i as int]);
            return false;
        }
        assert(v@.subrange(at as int, at + i + 1) == v@.subrange(at as int, at + i).push(
            v@[at + i],
        ));
        assert(pat@.take(i + 1) == pat@.take(i as int).push(pat@[i as int]));
        i += 1;
    }
    assert(pat@.take(pat.len() as int) == pat@);
    true
}

/// Whether `s` begins with `prefix`.
pub fn starts_with(s: &str, prefix: &str) -> (r: bool)
    ensures
        r == prefix@.is_prefix_of(s@),
{
    let v = chars_of(s);
    let p = chars_of(prefix);
    let r = matches_at(&v, 0, &p);
    proof {
        if p.len() <= v.len() {
            assert(v@.subrange(0, p.len() as int) == v@.take(p.len() as int));
        }
    }
    r
}

/// Whether `s` ends with `suffix`.
pub fn ends_with(s: &str, suffix: &str) -> (r: bool)
    ensures
        r == suffix@.is_suffix_of(s@),
{
    let v = chars_of(s);
    let p = chars_of(suffix);
    if p.len() > v.len() {
        return false;
    }
    let r = matches_at(&v, v.len() - p.len(), &p);
    assert(v@.subrange(v.len() - p.len(), v.len() as int) == v@.skip(v.len() - p.len()));
    r
}

/// `s` without the copies of `pat` at its end.
pub fn strip_suffix_all_str(s: &str, pat: &str) -> (r: String)
    ensures
        r@ == strip_suffix_all(s@, pat@),
{
    let v = chars_of(s);
    let p = chars_of(pat);
    let mut end: usize = v.len();
    assert(v@.take(end as int) == v@);
    if p.len() == 0 {
        return string_of_range(&v, 0, end);
    }
    while end >= p.len() && matches_at(&v, end - p.len(), &p)
        invariant
            end <= v.len(),
            p.len() > 0,
            p@ == pat@,
            strip_suffix_all(v@, p@) == strip_suffix_all(v@.take(end as int), p@),
        decreases end,
    {
        proof {
            let cut = v@.take(end as int);
            assert(cut.skip(cut.len() - p.len()) == v@.subrange(end - p.len(), end as int));
            assert(cut.take(cut.len() - p.len()) == v@.take(end - p.len()));
        }
        end -= p.len();
    }
    proof {
        let cut = v@.take(end as int);
        if end >= p.len() {
            assert(cut.skip(cut.len() - p.len()) == v@.subrange(end - p.len(), end as int));
        }
        assert(v@.subrange(0, end as int) == cut);
    }
    string_of_range(&v, 0, end)
}

/// `s` without the copies of `pat` at its start.
pub fn strip_prefix_all_str(s: &str, pat: &str) -> (r: String)
    ensures
        r@ == strip_prefix_all(s@, pat@),
{
    let v = chars_of(s);
    let p = chars_of(pat);
    let mut start: usize = 0;
    assert(v@.skip(0) == v@);
    if p.len() == 0 {
        assert(v@.subrange(0, v.len() as int) == v@);
        return string_of_range(&v, 0, v.len());
    }
    while matches_at(&v, start, &p)
        invariant
            start <= v.len(),
            p.len() > 0,
            p@ == pat@,
            strip_prefix_all(v@, p@) == strip_prefix_all(v@.skip(start as int), p@),
        decreases v.len() - start,
    {
        proof {
            let rest = v@.skip(start as int);
            assert(rest.take(p.len() as int) == v@.subrange(start as int, start + p.len()));
            assert(rest.skip(p.len() as int) == v@.skip(start + p.len()));
        }
        start += p.len();
    }
    proof {
        let rest = v@.skip(start as int);
        if start + p.len() <= v.len() {
            assert(rest.take(p.len() as int) == v@.subrange(start as int, start + p.len()));
        }
        assert(v@.subrange(start as int, v.len() as int) == rest);
    }
    string_of_range(&v, start, v.len())
}

/// `s` with every `from` replaced by `to`.
pub open spec fn replace_char(s: Seq<char>, from: char, to: char) -> Seq<char> {
    s.map_values(|c: char| if c == from { to } else { c })
}

/// `s` with every `from` replaced by `to`.
pub fn replace_char_str(s: &str, from: char, to: char) -> (r: String)
    ensures
        r@ == replace_char(s@, from, to),
{
    let mut out = String::new();
    for c in it: s.chars()
        invariant
            it.seq() == s@,
            out@ == replace_char(s@.take(it.index()), from, to),
    {
        assert(s@.take(it.index() + 1) == s@.take(it.index()).push(c));
        if c == from {
            out.push(to);
        } else {
            out.push(c);
        }
    }
    assert(s@.take(s@.len() as int) == s@);
    out
}

/// Whether `c` is one of the ten digits of ASCII.
pub open spec fn is_digit(c: char) -> bool {
    '0' <= c <= '9'
}

/// The number of digits at the end of `s`.
pub open spec fn digits_at_end(s: Seq<char>) -> nat
    decreases s.len(),
{
    if s.len() == 0 || !is_digit(s.last()) {
        0
    } else {
        1 + digits_at_end(s.drop_last())
    }
}

/// Whether no more than `limit` digits stand in a row anywhere in `s`.
pub open spec fn digit_runs_within(s: Seq<char>, limit: nat) -> bool {
    forall|n: int| 0 <= n <= s.len() ==> digits_at_end(#[trigger] s.take(n)) <= limit
}

/// Whether no more than `limit` digits stand in a row anywhere in `s`.
pub fn digit_runs_within_str(s: &str, limit: usize) -> (r: bool)
    ensures
        r == digit_runs_within(s@, limit as nat),
{
    let mut run: usize = 0;
    assert(s@.take(0) == Seq::<char>::empty());
    for c in it: s.chars()
        invariant
            it.seq() == s@,
            run == digits_at_end(s@.take(it.index())),
            forall|n: int| 0 <= n <= it.index() ==> digits_at_end(#[trigger] s@.take(n)) <= limit,
    {
        proof {
            let next = s@.take(it.index() + 1);
            assert(next.drop_last() == s@.take(it.index()));
            assert(next.last() == c);
        }
        if '0' <= c && c <= '9' {
            if run >= limit {
                assert(digits_at_end(s@.take(it.index() + 1)) > limit);
                return false;
            }
            run += 1;
        } else {
            run = 0;
        }
    }
    true
}

/// `line` without a carriage return at its end.
pub open spec fn strip_cr(line: Seq<char>) -> Seq<char> {
    if line.len() > 0 && line.last() == '\r' {
        line.drop_last()
    } else {
        line
    }
}

/// The lines of `s`. A line ends at a line feed, or at a carriage return
/// directly before a line feed; neither belongs to the line. What follows
/// the last line feed is a line if it is not empty, and keeps a carriage
/// return at its end.
pub open spec fn lines(s: Seq<char>) -> Seq<Seq<char>> {
    let pieces = split(s, '\n');
    let ended = pieces.drop_last().map_values(|l: Seq<char>| strip_cr(l));
    if pieces.last().len() == 0 {
        ended
    } else {
        ended.push(pieces.last())
    }
}

/// The lines of `s`.
pub fn lines_of(s: &str) -> (r: Vec<String>)
    ensures
        texts(r@) == lines(s@),
{
    let pieces = split_str(s, '\n');
    proof {
        lemma_split_pieces(s@, '\n');
    }
    let ghost all = split(s@, '\n');
    let mut out: Vec<String> = Vec::new();
    let last: usize = pieces.len() - 1;
    let mut i: usize = 0;
    assert(all.drop_last().take(0) == Seq::<Seq<char>>::empty());
    while i < last
        invariant
            i <= last,
            last + 1 == pieces.len(),
            all == texts(pieces@),
            texts(out@) == all.drop_last().take(i as int).map_values(|l: Seq<char>| strip_cr(l)),
        decreases last - i,
    {
        let v = chars_of(pieces[i].as_str());
        let end: usize = if v.len() > 0 && v[v.len() - 1] == '\r' {
            v.len() - 1
        } else {
            v.len()
        };
        let line = string_of_range(&v, 0, end);
        proof {
            assert(v@.subrange(0, end as int) == strip_cr(v@));
            assert(all.drop_last().take(i + 1) == all.drop_last().take(i as int).push(all[i as int]));
            assert(texts(out@.push(line)) == texts(out@).push(line@));
        }
        out.push(line);
        i += 1;
    }
    assert(all.drop_last().take(last as int) == all.drop_last());
    if pieces[last].as_str().unicode_len() != 0 {
        let tail = pieces[last].clone();
        assert(texts(out@.push(tail)) == texts(out@).push(tail@));
        out.push(tail);
    }
    out
}

/// The decimal digits of `n`, the most significant first.
pub open spec fn digits(n: nat) -> Seq<char>
    decreases n,
{
    if n < 10 {
        seq![digit(n)]
    } else {
        digits(n / 10).push(digit(n % 10))
    }
}

/// The character for a digit below ten.
pub open spec fn digit(d: nat) -> char {
    if d == 0 {
        '0'
    } else if d == 1 {
        '1'
    } else if d == 2 {
        '2'
    } else if d == 3 {
        '3'
    } else if d == 4 {
        '4'
    } else if d == 5 {
        '5'
    } else if d == 6 {
        '6'
    } else if d == 7 {
        '7'
    } else if d == 8 {
        '8'
    } else {
        '9'
    }
}

/// `n` in decimal, with a minus sign in front if it is negative.
pub open spec fn decimal(n: int) -> Seq<char> {
    if n < 0 {
        seq!['-'] + digits((-n) as nat)
    } else {
        digits(n as nat)
    }
}

fn digit_char(d: u64) -> (c: char)
    requires
        d < 10,
    ensures
        c == digit(d as nat),
{
    if d == 0 {
        '0'
    } else if d == 1 {
        '1'
    } else if d == 2 {
        '2'
    } else if d == 3 {
        '3'
    } else if d == 4 {
        '4'
    } else if d == 5 {
        '5'
    } else if d == 6 {
        '6'
    } else if d == 7 {
        '7'
    } else if d == 8 {
        '8'
    } else {
        '9'
    }
}

fn digits_of(n: u64) -> (r: String)
    ensures
        r@ == digits(n as nat),
    decreases n,
{
    if n < 10 {
        let mut out = String::new();
        out.push(digit_char(n));
        assert(out@ == seq![digit(n as nat)]);
        out
    } else {
        let mut out = digits_of(n / 10);
        out.push(digit_char(n % 10));
        out
    }
}

/// `n` in decimal.
pub fn decimal_str(n: i32) -> (r: String)
    ensures
        r@ == decimal(n as int),
{
    if n < 0 {
        let magnitude: u64 = (-(n as i64)) as u64;
        let body = digits_of(magnitude);
        let mut out = String::new();
        out.push('-');
        out.append(body.as_str());
        assert(out@ == seq!['-'] + body@);
        out
    } else {
        digits_of(n as u64)
    }
}

/// The lower-case form of a text, as `str::to_lowercase` gives it.
pub uninterp spec fn lowercase(s: Seq<char>) -> Seq<char>;

/// `str::to_lowercase` returns the lower-case equivalent of the string, by
/// the Unicode rules that std implements. All that is claimed is that the
/// result depends on the characters of the string alone.
pub assume_specification[ str::to_lowercase ](s: &str) -> (r: String)
    ensures
        r@ == lowercase(s@),
;

/// Whether a text that was trimmed and put in lower case says yes.
pub open spec fn is_affirmative(answer: Seq<char>) -> bool {
    answer == "y"@ || answer == "yes"@
}

/// Whether `answer`, taken as it stands, is `y` or `yes`.
pub fn affirmative(answer: &str) -> (r: bool)
    ensures
        r == is_affirmative(answer@),
{
    same_text(answer, "y") || same_text(answer, "yes")
}

/// Whether a line typed at a prompt says yes: white space around it and
/// the case of its letters do not count.
pub fn is_yes(line: &str) -> (r: bool)
    ensures
        r == is_affirmative(lowercase(trim(line@))),
{
    let trimmed = trim_str(line);
    let lowered = trimmed.as_str().to_lowercase();
    affirmative(lowered.as_str())
}

} // verus!
