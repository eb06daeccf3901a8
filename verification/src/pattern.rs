//! Searching and rewriting strings: where a piece of text occurs, and the
//! text with occurrences replaced, runs of spaces squeezed, lines trimmed.

use crate::text::{chars_of, is_white_space, split, trim_end};
use vstd::prelude::*;

verus! {

/// Whether `needle` stands in `s` at position `i`.
pub open spec fn occurs_at(s: Seq<char>, needle: Seq<char>, i: int) -> bool {
    0 <= i && i + needle.len() <= s.len() && s.subrange(i, i + needle.len()) == needle
}

/// The first position at or behind `from` at which `needle` stands in `s`.
pub open spec fn find_from(s: Seq<char>, needle: Seq<char>, from: int) -> Option<int>
    decreases s.len() - from,
{
    if from < 0 || from + needle.len() > s.len() {
        None
    } else if occurs_at(s, needle, from) {
        Some(from)
    } else if from < s.len() {
        find_from(s, needle, from + 1)
    } else {
        None
    }
}

/// The first position at which `needle` stands in `s`.
pub open spec fn find(s: Seq<char>, needle: Seq<char>) -> Option<int> {
    find_from(s, needle, 0)
}

/// Whether `needle` stands anywhere in `s`.
pub open spec fn contains(s: Seq<char>, needle: Seq<char>) -> bool {
    find(s, needle) is Some
}

/// `s` with the first occurrence of `needle` replaced by `with`; `s` itself
/// where `needle` does not occur.
pub open spec fn replace_first(s: Seq<char>, needle: Seq<char>, with: Seq<char>) -> Seq<char> {
    match find(s, needle) {
        Some(i) => s.take(i) + with + s.skip(i + needle.len()),
        None => s,
    }
}

/// What follows position `from` in `s`, with every occurrence of `needle`
/// replaced by `with`. Occurrences are taken from the left and do not
/// overlap.
pub open spec fn replace_all_from(
    s: Seq<char>,
    needle: Seq<char>,
    with: Seq<char>,
    from: int,
) -> Seq<char>
    decreases s.len() - from,
{
    if needle.len() == 0 || from < 0 || from > s.len() {
        Seq::empty()
    } else {
        match find_from(s, needle, from) {
            Some(i) => if from <= i && i + needle.len() <= s.len() {
                s.subrange(from, i) + with + replace_all_from(s, needle, with, i + needle.len())
            } else {
                Seq::empty()
            },
            None => s.skip(from),
        }
    }
}

/// `s` with `with` behind each of its characters.
pub open spec fn followed_by(s: Seq<char>, with: Seq<char>) -> Seq<char>
    decreases s.len(),
{
    if s.len() == 0 {
        Seq::empty()
    } else {
        followed_by(s.drop_last(), with).push(s.last()) + with
    }
}

/// `s` with every occurrence of `needle` replaced by `with`. The empty
/// `needle` occurs before every character and at the end.
pub open spec fn replace_all(s: Seq<char>, needle: Seq<char>, with: Seq<char>) -> Seq<char> {
    if needle.len() == 0 {
        with + followed_by(s, with)
    } else {
        replace_all_from(s, needle, with, 0)
    }
}

/// `s` with every run of spaces made one space.
pub open spec fn squeeze_spaces(s: Seq<char>) -> Seq<char>
    decreases s.len(),
{
    if s.len() == 0 {
        s
    } else if s.len() >= 2 && s.last() == ' ' && s[s.len() - 2] == ' ' {
        squeeze_spaces(s.drop_last())
    } else {
        squeeze_spaces(s.drop_last()).push(s.last())
    }
}

/// The pieces of `parts` with `sep` between each two.
pub open spec fn join(parts: Seq<Seq<char>>, sep: Seq<char>) -> Seq<char>
    decreases parts.len(),
{
    if parts.len() == 0 {
        Seq::empty()
    } else if parts.len() == 1 {
        parts[0]
    } else {
        join(parts.drop_last(), sep) + sep + parts.last()
    }
}

/// The lines of `s`: its pieces between line feeds, without the empty piece
/// behind a line feed that ends the text.
pub open spec fn lines(s: Seq<char>) -> Seq<Seq<char>> {
    let pieces = split(s, '\n');
    if pieces.len() > 0 && pieces.last().len() == 0 {
        pieces.drop_last()
    } else {
        pieces
    }
}

/// Each of `parts` without its trailing white space.
pub open spec fn each_trimmed_end(parts: Seq<Seq<char>>) -> Seq<Seq<char>> {
    Seq::new(parts.len(), |i: int| trim_end(parts[i]))
}

/// `s` with trailing white space taken off every line, the lines joined by
/// single line feeds, and no line feed at the end.
pub open spec fn with_line_ends_trimmed(s: Seq<char>) -> Seq<char> {
    join(each_trimmed_end(lines(s)), seq!['\n'])
}

/// Where `needle` is found from `from` on, it stands there and nowhere
/// between `from` and there; where it is not found, it stands nowhere from
/// `from` on.
pub proof fn lemma_find_from(s: Seq<char>, needle: Seq<char>, from: int)
    requires
        0 <= from,
    ensures
        match find_from(s, needle, from) {
            Some(i) => from <= i && occurs_at(s, needle, i) && forall|j: int|
                from <= j < i ==> !occurs_at(s, needle, j),
            None => forall|j: int| from <= j ==> !occurs_at(s, needle, j),
        },
    decreases s.len() - from,
{
    if from + needle.len() <= s.len() && !occurs_at(s, needle, from) {
        if from < s.len() {
            lemma_find_from(s, needle, from + 1);
        } else {
            assert(s.subrange(from, from + needle.len()) =~= needle);
        }
    }
}

/// Squeezed text holds no two spaces side by side, and so no run of two
/// spaces anywhere; it ends as the text ended.
pub proof fn lemma_squeezed_has_no_double_space(s: Seq<char>)
    ensures
        s.len() > 0 ==> squeeze_spaces(s).len() > 0 && squeeze_spaces(s).last() == s.last(),
        squeeze_spaces(s).len() <= s.len(),
        forall|i: int|
            0 <= i && i + 1 < squeeze_spaces(s).len() ==> !(#[trigger] squeeze_spaces(s)[i] == ' '
                && squeeze_spaces(s)[i + 1] == ' '),
        !contains(squeeze_spaces(s), "  "@),
    decreases s.len(),
{
    let r = squeeze_spaces(s);
    if s.len() > 0 {
        let rest = s.drop_last();
        lemma_squeezed_has_no_double_space(rest);
        if rest.len() > 0 {
            assert(rest.last() == s[s.len() - 2]);
        }
    }
    reveal_strlit("  ");
    lemma_find_from(r, "  "@, 0);
    if contains(r, "  "@) {
        let i = find(r, "  "@)->Some_0;
        let pair = r.subrange(i, i + 2);
        assert(pair[0] == r[i] && pair[1] == r[i + 1]);
        assert("  "@[0] == ' ' && "  "@[1] == ' ');
    }
}

/// Whether `needle` stands in `s` at position `i`.
pub fn occurs_at_chars(s: &Vec<char>, needle: &Vec<char>, i: usize) -> (r: bool)
    ensures
        r == occurs_at(s@, needle@, i as int),
{
    let n: usize = s.len();
    let m: usize = needle.len();
    if i > n || m > n - i {
        return false;
    }
    let mut k: usize = 0;
    while k < m
        invariant
            n == s@.len(),
            m == needle@.len(),
            i + m <= n,
            k <= m,
            forall|j: int| 0 <= j < k ==> s@[i + j] == needle@[j],
        decreases m - k,
    {
        if s[i + k] != needle[k] {
            proof {
                assert(s@.subrange(i as int, i + m)[k as int] == s@[i + k]);
            }
            return false;
        }
        k = k + 1;
    }
    proof {
        assert(s@.subrange(i as int, i + m) =~= needle@);
    }
    true
}

/// The first position at or behind `from` at which `needle` stands in `s`.
pub fn find_chars(s: &Vec<char>, needle: &Vec<char>, from: usize) -> (r: Option<usize>)
    ensures
        match r {
            Some(i) => find_from(s@, needle@, from as int) == Some(i as int) && from <= i && i
                + needle@.len() <= s@.len(),
            None => find_from(s@, needle@, from as int) is None,
        },
{
    let n: usize = s.len();
    let m: usize = needle.len();
    if from > n || m > n - from {
        return None;
    }
    let last: usize = n - m;
    let mut i: usize = from;
    loop
        invariant
            n == s@.len(),
            m == needle@.len(),
            last == n - m,
            from <= i <= last,
            find_from(s@, needle@, from as int) == find_from(s@, needle@, i as int),
        decreases last - i,
    {
        if occurs_at_chars(s, needle, i) {
            return Some(i);
        }
        if i == last {
            proof {
                if i < n {
                    assert(find_from(s@, needle@, i + 1) is None);
                }
            }
            return None;
        }
        i = i + 1;
    }
}

/// Appends the characters of `part` from `from` up to `to` to `out`.
pub fn push_range(out: &mut Vec<char>, part: &Vec<char>, from: usize, to: usize)
    requires
        from <= to <= part@.len(),
    ensures
        final(out)@ == old(out)@ + part@.subrange(from as int, to as int),
{
    let mut i: usize = from;
    let ghost start = out@;
    proof {
        assert(start + part@.subrange(from as int, from as int) =~= start);
    }
    while i < to
        invariant
            from <= i <= to,
            to <= part@.len(),
            out@ == start + part@.subrange(from as int, i as int),
        decreases to - i,
    {
        out.push(part[i]);
        proof {
            assert(start + part@.subrange(from as int, i + 1) =~= (start + part@.subrange(
                from as int,
                i as int,
            )).push(part@[i as int]));
        }
        i = i + 1;
    }
}

/// The string of the characters `chars`.
pub fn string_of(chars: &Vec<char>) -> (r: String)
    ensures
        r@ == chars@,
{
    let n: usize = chars.len();
    let mut out = String::new();
    let mut i: usize = 0;
    while i < n
        invariant
            n == chars@.len(),
            i <= n,
            out@ == chars@.take(i as int),
        decreases n - i,
    {
        out.push(chars[i]);
        proof {
            assert(chars@.take(i + 1) =~= chars@.take(i as int).push(chars@[i as int]));
        }
        i = i + 1;
    }
    proof {
        assert(chars@.take(n as int) =~= chars@);
    }
    out
}

/// Whether `needle` stands anywhere in `s`.
pub fn text_contains(s: &str, needle: &str) -> (r: bool)
    ensures
        r == contains(s@, needle@),
{
    let hay = chars_of(s);
    let pin = chars_of(needle);
    find_chars(&hay, &pin, 0).is_some()
}

/// `s` with the first occurrence of `needle` replaced by `with`.
pub fn replace_first_chars(s: &Vec<char>, needle: &Vec<char>, with: &Vec<char>) -> (r: Vec<char>)
    ensures
        r@ == replace_first(s@, needle@, with@),
{
    match find_chars(s, needle, 0) {
        Some(i) => {
            let n: usize = s.len();
            let after: usize = i + needle.len();
            let mut out: Vec<char> = Vec::new();
            push_range(&mut out, s, 0, i);
            push_range(&mut out, with, 0, with.len());
            push_range(&mut out, s, after, s.len());
            proof {
                assert(with@.subrange(0, with@.len() as int) =~= with@);
                assert(s@.subrange(0, i as int) =~= s@.take(i as int));
                assert(s@.subrange(i + needle@.len(), s@.len() as int) =~= s@.skip(
                    i + needle@.len(),
                ));
                assert(out@ =~= s@.take(i as int) + with@ + s@.skip(i + needle@.len()));
            }
            out
        },
        None => {
            let mut out: Vec<char> = Vec::new();
            push_range(&mut out, s, 0, s.len());
            proof {
                assert(out@ =~= s@);
            }
            out
        },
    }
}

/// `s` with every occurrence of `needle` replaced by `with`.
pub fn replace_all_chars(s: &Vec<char>, needle: &Vec<char>, with: &Vec<char>) -> (r: Vec<char>)
    ensures
        r@ == replace_all(s@, needle@, with@),
{
    let n: usize = s.len();
    let mut out: Vec<char> = Vec::new();
    if needle.len() == 0 {
        push_range(&mut out, with, 0, with.len());
        let mut i: usize = 0;
        proof {
            assert(with@.subrange(0, with@.len() as int) =~= with@);
            assert(s@.take(0) =~= Seq::<char>::empty());
            assert(with@ + Seq::<char>::empty() =~= with@);
        }
        while i < n
            invariant
                n == s@.len(),
                i <= n,
                out@ == with@ + followed_by(s@.take(i as int), with@),
            decreases n - i,
        {
            let ghost before = out@;
            out.push(s[i]);
            push_range(&mut out, with, 0, with.len());
            proof {
                let upto = s@.take(i + 1);
                assert(upto.drop_last() =~= s@.take(i as int));
                assert(upto.last() == s@[i as int]);
                assert(with@.subrange(0, with@.len() as int) =~= with@);
                assert(before.push(s@[i as int]) + with@ =~= with@ + (followed_by(
                    s@.take(i as int),
                    with@,
                ).push(s@[i as int]) + with@));
            }
            i = i + 1;
        }
        proof {
            assert(s@.take(n as int) =~= s@);
        }
        return out;
    }
    let mut from: usize = 0;
    let mut done = false;
    proof {
        assert(out@ + replace_all_from(s@, needle@, with@, 0) =~= replace_all(
            s@,
            needle@,
            with@,
        ));
    }
    while !done
        invariant
            n == s@.len(),
            needle@.len() > 0,
            from <= n,
            !done ==> replace_all(s@, needle@, with@) == out@ + replace_all_from(
                s@,
                needle@,
                with@,
                from as int,
            ),
            done ==> replace_all(s@, needle@, with@) == out@,
        decreases n - from + if done { 0int } else { 1int },
    {
        let ghost before = out@;
        match find_chars(s, needle, from) {
            Some(i) => {
                push_range(&mut out, s, from, i);
                push_range(&mut out, with, 0, with.len());
                proof {
                    assert(with@.subrange(0, with@.len() as int) =~= with@);
                    let rest = replace_all_from(s@, needle@, with@, i + needle@.len());
                    assert(before + (s@.subrange(from as int, i as int) + with@ + rest) =~= (before
                        + s@.subrange(from as int, i as int) + with@) + rest);
                }
                from = i + needle.len();
            },
            None => {
                push_range(&mut out, s, from, n);
                proof {
                    assert(s@.subrange(from as int, n as int) =~= s@.skip(from as int));
                }
                done = true;
            },
        }
    }
    out
}

/// `s` with every run of spaces made one space.
pub fn squeeze_spaces_chars(s: &Vec<char>) -> (r: Vec<char>)
    ensures
        r@ == squeeze_spaces(s@),
{
    let n: usize = s.len();
    let mut out: Vec<char> = Vec::new();
    let mut i: usize = 0;
    proof {
        assert(s@.take(0) =~= Seq::<char>::empty());
    }
    while i < n
        invariant
            n == s@.len(),
            i <= n,
            out@ == squeeze_spaces(s@.take(i as int)),
        decreases n - i,
    {
        proof {
            let upto = s@.take(i + 1);
            assert(upto.drop_last() =~= s@.take(i as int));
            assert(upto.last() == s@[i as int]);
            if i > 0 {
                assert(upto[upto.len() - 2] == s@[i - 1]);
            }
        }
        if !(i > 0 && s[i] == ' ' && s[i - 1] == ' ') {
            out.push(s[i]);
        }
        i = i + 1;
    }
    proof {
        assert(s@.take(n as int) =~= s@);
    }
    out
}

/// Appends to `out` the characters of `s` from `from` up to `to`, without
/// the white space at the end of that stretch.
fn push_trimmed_end(out: &mut Vec<char>, s: &Vec<char>, from: usize, to: usize)
    requires
        from <= to <= s@.len(),
    ensures
        final(out)@ == old(out)@ + trim_end(s@.subrange(from as int, to as int)),
{
    let mut end: usize = to;
    let ghost piece = s@.subrange(from as int, to as int);
    while end > from && crate::text::char_is_white_space(s[end - 1])
        invariant
            from <= end <= to,
            to <= s@.len(),
            piece == s@.subrange(from as int, to as int),
            forall|j: int| end <= j < to ==> is_white_space(#[trigger] s@[j]),
        decreases end,
    {
        end = end - 1;
    }
    proof {
        let k = end - from;
        assert forall|j: int| k <= j < piece.len() implies is_white_space(#[trigger] piece[j]) by {
            assert(piece[j] == s@[from + j]);
        }
        crate::text::lemma_trim_end_take(piece, k);
        let kept = piece.take(k);
        assert(kept =~= s@.subrange(from as int, end as int));
        if kept.len() > 0 {
            assert(kept.last() == s@[end - 1]);
        }
        assert(trim_end(kept) == kept);
    }
    push_range(out, s, from, end);
}

/// `s` with trailing white space taken off every line, the lines joined by
/// single line feeds, and no line feed at the end.
pub fn trim_line_ends_chars(s: &Vec<char>) -> (r: Vec<char>)
    ensures
        r@ == with_line_ends_trimmed(s@),
{
    let n: usize = s.len();
    let mut out: Vec<char> = Vec::new();
    let mut start: usize = 0;
    let mut i: usize = 0;
    let mut count: usize = 0;
    let ghost mut done: Seq<Seq<char>> = Seq::empty();
    proof {
        assert(s@.take(0) =~= Seq::<char>::empty());
        assert(s@.subrange(0, 0) =~= Seq::<char>::empty());
        assert(done.push(Seq::<char>::empty()) =~= seq![Seq::<char>::empty()]);
        assert(each_trimmed_end(done) =~= Seq::<Seq<char>>::empty());
    }
    while i < n
        invariant
            n == s@.len(),
            start <= i <= n,
            count == done.len(),
            count <= i,
            split(s@.take(i as int), '\n') == done.push(s@.subrange(start as int, i as int)),
            out@ == join(each_trimmed_end(done), seq!['\n']),
        decreases n - i,
    {
        proof {
            let upto = s@.take(i + 1);
            assert(upto.drop_last() =~= s@.take(i as int));
            assert(upto.last() == s@[i as int]);
            let before = done.push(s@.subrange(start as int, i as int));
            assert(before.drop_last() =~= done);
            assert(before.last().push(s@[i as int]) =~= s@.subrange(start as int, i + 1));
        }
        if s[i] == '\n' {
            let ghost line = s@.subrange(start as int, i as int);
            let ghost prev = out@;
            if count > 0 {
                out.push('\n');
            }
            push_trimmed_end(&mut out, s, start, i);
            proof {
                let grown = done.push(line);
                assert(each_trimmed_end(grown) =~= each_trimmed_end(done).push(trim_end(line)));
                assert(each_trimmed_end(grown).drop_last() =~= each_trimmed_end(done));
                if count > 0 {
                    assert(prev.push('\n') =~= prev + seq!['\n']);
                }
                done = grown;
                assert(s@.subrange(i + 1, i + 1) =~= Seq::<char>::empty());
            }
            count = count + 1;
            start = i + 1;
        }
        i = i + 1;
    }
    proof {
        assert(s@.take(n as int) =~= s@);
        let pieces = split(s@, '\n');
        assert(pieces.drop_last() =~= done);
    }
    if start < n {
        let ghost line = s@.subrange(start as int, n as int);
        let ghost prev = out@;
        if count > 0 {
            out.push('\n');
        }
        push_trimmed_end(&mut out, s, start, n);
        proof {
            let grown = done.push(line);
            assert(each_trimmed_end(grown) =~= each_trimmed_end(done).push(trim_end(line)));
            assert(each_trimmed_end(grown).drop_last() =~= each_trimmed_end(done));
            if count > 0 {
                assert(prev.push('\n') =~= prev + seq!['\n']);
            }
        }
    }
    out
}

/// The pieces of `parts` with `sep` between each two.
pub fn join_texts(parts: &Vec<String>, sep: &str) -> (r: String)
    ensures
        r@ == join(parts.deep_view(), sep@),
{
    let n: usize = parts.len();
    let mut out = String::new();
    let mut i: usize = 0;
    proof {
        assert(parts.deep_view().take(0) =~= Seq::empty());
    }
    while i < n
        invariant
            n == parts@.len(),
            i <= n,
            out@ == join(parts.deep_view().take(i as int), sep@),
        decreases n - i,
    {
        proof {
            let upto = parts.deep_view().take(i + 1);
            assert(upto.drop_last() =~= parts.deep_view().take(i as int));
            assert(upto.last() == parts@[i as int]@);
            if i == 0 {
                assert(upto[0] == parts@[0]@);
                assert(Seq::<char>::empty() + parts@[0]@ =~= parts@[0]@);
            }
        }
        if i > 0 {
            vstd::string::StringExecFns::append(&mut out, sep);
        }
        vstd::string::StringExecFns::append(&mut out, parts[i].as_str());
        i = i + 1;
    }
    proof {
        assert(parts.deep_view().take(n as int) =~= parts.deep_view());
    }
    out
}

} // verus!
