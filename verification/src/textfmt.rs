//! Plain-text shaping for fixed-width table cells: truncation with an
//! ellipsis, padding to a width, and greedy word-wrapping of descriptions.
use vstd::prelude::*;

use vstd::string::StrSliceExecFns;
use vstd::string::StringExecFns;

verus! {

broadcast use vstd::string::group_string_axioms;

/// `n` spaces.
pub open spec fn spaces(n: nat) -> Seq<char> {
    Seq::new(n, |i: int| ' ')
}

/// Truncation to `max_len` cells: text longer than `max_len - 1` characters
/// is cut there and ends in an ellipsis character.
pub open spec fn truncate_spec(s: Seq<char>, max_len: nat) -> Seq<char>
    recommends
        max_len >= 1,
{
    if s.len() > max_len - 1 {
        s.subrange(0, max_len - 1).push('…')
    } else {
        s
    }
}

/// Centering in `width` cells: the padding splits evenly, with the odd
/// space on the right; text at least `width` long stays as it is.
pub open spec fn center_spec(s: Seq<char>, width: nat) -> Seq<char> {
    if s.len() >= width {
        s
    } else {
        spaces(((width - s.len()) / 2) as nat) + s + spaces(
            ((width - s.len()) - (width - s.len()) / 2) as nat,
        )
    }
}

/// Left alignment in `width` cells: text shorter than `width` is padded
/// with spaces on the right.
pub open spec fn left_spec(s: Seq<char>, width: nat) -> Seq<char> {
    if s.len() >= width {
        s
    } else {
        s + spaces((width - s.len()) as nat)
    }
}

/// A string of `n` spaces.
fn make_spaces(n: usize) -> (r: String)
    ensures
        r@ == spaces(n as nat),
{
    let mut r = String::new();
    let mut i: usize = 0;
    proof {
        assert(r@ =~= spaces(0));
    }
    while i < n
        invariant
            i <= n,
            r@ == spaces(i as nat),
        decreases n - i,
    {
        r.append(" ");
        proof {
            reveal_strlit(" ");
            assert(r@ =~= spaces((i + 1) as nat));
        }
        i = i + 1;
    }
    r
}

/// Truncates `s` to at most `max_len` display cells: text longer than
/// `max_len - 1` characters is cut there and gets a trailing ellipsis.
pub fn truncate(s: &str, max_len: usize) -> (r: String)
    requires
        max_len >= 1,
    ensures
        r@ == truncate_spec(s@, max_len as nat),
{
    let n = s.unicode_len();
    if n > max_len - 1 {
        let cut = s.substring_char(0, max_len - 1);
        let r = cut.to_owned().concat("…");
        proof {
            reveal_strlit("…");
            assert(r@ =~= s@.subrange(0, max_len - 1).push('…'));
        }
        r
    } else {
        s.to_owned()
    }
}

/// Centers `text` in `width` cells, the odd padding space going right.
pub fn center_align(text: &str, width: usize) -> (r: String)
    ensures
        r@ == center_spec(text@, width as nat),
{
    let n = text.unicode_len();
    if n >= width {
        text.to_owned()
    } else {
        let pad = width - n;
        let left = pad / 2;
        let right = pad - left;
        let mut r = make_spaces(left);
        r.append(text);
        let tail = make_spaces(right);
        r.append(tail.as_str());
        proof {
            assert(r@ =~= center_spec(text@, width as nat));
        }
        r
    }
}

/// Pads `text` with spaces on the right up to `width` cells.
pub fn left_align(text: &str, width: usize) -> (r: String)
    ensures
        r@ == left_spec(text@, width as nat),
{
    let n = text.unicode_len();
    if n >= width {
        text.to_owned()
    } else {
        let mut r = text.to_owned();
        let tail = make_spaces(width - n);
        r.append(tail.as_str());
        proof {
            assert(r@ =~= left_spec(text@, width as nat));
        }
        r
    }
}

/// The characters treated as blank when a description is split into words.
pub open spec fn is_space(c: char) -> bool {
    c == ' ' || c == '\t' || c == '\r' || c == '\n'
}

/// The words of `s`, in order: maximal runs of non-blank characters, with
/// `cur` the run already read when the scan starts.
pub open spec fn split_ws(s: Seq<char>, cur: Seq<char>) -> Seq<Seq<char>>
    decreases s.len(),
{
    if s.len() == 0 {
        if cur.len() == 0 {
            Seq::empty()
        } else {
            seq![cur]
        }
    } else if is_space(s[0]) {
        if cur.len() == 0 {
            split_ws(s.drop_first(), Seq::empty())
        } else {
            seq![cur] + split_ws(s.drop_first(), Seq::empty())
        }
    } else {
        split_ws(s.drop_first(), cur.push(s[0]))
    }
}

/// The lines of `s`, split at newline characters: a trailing newline ends
/// the last line rather than opening an empty one, and an empty text has
/// no lines. `cur` is the line already read when the scan starts.
pub open spec fn split_lines(s: Seq<char>, cur: Seq<char>) -> Seq<Seq<char>>
    decreases s.len(),
{
    if s.len() == 0 {
        if cur.len() == 0 {
            Seq::empty()
        } else {
            seq![cur]
        }
    } else if s[0] == '\n' {
        seq![cur] + split_lines(s.drop_first(), Seq::empty())
    } else {
        split_lines(s.drop_first(), cur.push(s[0]))
    }
}

/// Greedy wrapping: words are appended to the open segment, each followed
/// by one space; a word that would push the segment past `max_len` closes
/// it first. The open segment `cur` always ends the result.
pub open spec fn wrap_words(words: Seq<Seq<char>>, max_len: nat, cur: Seq<char>) -> Seq<Seq<char>>
    decreases words.len(),
{
    if words.len() == 0 {
        seq![cur]
    } else if cur.len() + words[0].len() + 1 > max_len {
        seq![cur] + wrap_words(words.drop_first(), max_len, words[0].push(' '))
    } else {
        wrap_words(words.drop_first(), max_len, cur + words[0].push(' '))
    }
}

/// `format_description`, stated line by line: every line is wrapped on its
/// own and the segments are concatenated.
pub open spec fn format_desc_spec(lines: Seq<Seq<char>>, max_len: nat) -> Seq<Seq<char>>
    decreases lines.len(),
{
    if lines.len() == 0 {
        Seq::empty()
    } else {
        wrap_words(split_ws(lines[0], Seq::empty()), max_len, Seq::empty()) + format_desc_spec(
            lines.drop_first(),
            max_len,
        )
    }
}

/// The words of `s`, as owned strings in order.
fn split_words(s: &str) -> (r: Vec<String>)
    ensures
        r.deep_view() == split_ws(s@, Seq::empty()),
        forall|j: int| 0 <= j < r@.len() ==> (#[trigger] r@[j])@.len() <= s@.len(),
{
    let n = s.unicode_len();
    let mut words: Vec<String> = Vec::new();
    let mut start: usize = 0;
    let mut i: usize = 0;
    proof {
        assert(s@.skip(0) =~= s@);
        assert(s@.subrange(0, 0) =~= Seq::<char>::empty());
        assert(words.deep_view() =~= Seq::<Seq<char>>::empty());
    }
    while i < n
        invariant
            n == s@.len(),
            start <= i <= n,
            words.deep_view() + split_ws(s@.skip(i as int), s@.subrange(start as int, i as int))
                == split_ws(s@, Seq::empty()),
            forall|j: int| 0 <= j < words@.len() ==> (#[trigger] words@[j])@.len() <= s@.len(),
        decreases n - i,
    {
        let ghost prefix = words.deep_view();
        let ghost cur = s@.subrange(start as int, i as int);
        proof {
            assert(s@.skip(i as int).len() > 0);
            assert(s@.skip(i as int)[0] == s@[i as int]);
            assert(s@.skip(i as int).drop_first() =~= s@.skip(i as int + 1));
        }
        let c = s.get_char(i);
        if c == ' ' || c == '\t' || c == '\r' || c == '\n' {
            if start < i {
                let w = s.substring_char(start, i).to_owned();
                words.push(w);
                proof {
                    assert(words.deep_view() =~= prefix.push(cur));
                    assert(prefix.push(cur) =~= prefix + seq![cur]);
                    assert((prefix + seq![cur]) + split_ws(s@.skip(i as int + 1), Seq::empty())
                        =~= prefix + (seq![cur] + split_ws(s@.skip(i as int + 1), Seq::empty())));
                }
            }
            start = i + 1;
            proof {
                assert(s@.subrange(i as int + 1, i as int + 1) =~= Seq::<char>::empty());
            }
        } else {
            proof {
                assert(s@.subrange(start as int, i as int + 1) =~= cur.push(s@[i as int]));
            }
        }
        i = i + 1;
    }
    let ghost prefix = words.deep_view();
    let ghost cur = s@.subrange(start as int, i as int);
    proof {
        assert(s@.skip(n as int).len() == 0);
    }
    if start < n {
        let w = s.substring_char(start, n).to_owned();
        words.push(w);
        proof {
            assert(words.deep_view() =~= prefix.push(cur));
            assert(prefix.push(cur) =~= prefix + seq![cur]);
        }
    } else {
        proof {
            assert(cur.len() == 0);
            assert(prefix + split_ws(s@.skip(n as int), cur) =~= prefix);
        }
    }
    words
}

/// The lines of `s`, as owned strings in order, split at newlines.
fn split_into_lines(s: &str) -> (r: Vec<String>)
    ensures
        r.deep_view() == split_lines(s@, Seq::empty()),
        forall|j: int| 0 <= j < r@.len() ==> (#[trigger] r@[j])@.len() <= s@.len(),
{
    let n = s.unicode_len();
    let mut lines: Vec<String> = Vec::new();
    let mut start: usize = 0;
    let mut i: usize = 0;
    proof {
        assert(s@.skip(0) =~= s@);
        assert(s@.subrange(0, 0) =~= Seq::<char>::empty());
        assert(lines.deep_view() =~= Seq::<Seq<char>>::empty());
    }
    while i < n
        invariant
            n == s@.len(),
            start <= i <= n,
            lines.deep_view() + split_lines(
                s@.skip(i as int),
                s@.subrange(start as int, i as int),
            ) == split_lines(s@, Seq::empty()),
            forall|j: int| 0 <= j < lines@.len() ==> (#[trigger] lines@[j])@.len() <= s@.len(),
        decreases n - i,
    {
        let ghost prefix = lines.deep_view();
        let ghost cur = s@.subrange(start as int, i as int);
        proof {
            assert(s@.skip(i as int).len() > 0);
            assert(s@.skip(i as int)[0] == s@[i as int]);
            assert(s@.skip(i as int).drop_first() =~= s@.skip(i as int + 1));
        }
        let c = s.get_char(i);
        if c == '\n' {
            let w = s.substring_char(start, i).to_owned();
            lines.push(w);
            proof {
                assert(lines.deep_view() =~= prefix.push(cur));
                assert(prefix.push(cur) =~= prefix + seq![cur]);
                assert((prefix + seq![cur]) + split_lines(s@.skip(i as int + 1), Seq::empty())
                    =~= prefix + (seq![cur] + split_lines(s@.skip(i as int + 1), Seq::empty())));
            }
            start = i + 1;
            proof {
                assert(s@.subrange(i as int + 1, i as int + 1) =~= Seq::<char>::empty());
            }
        } else {
            proof {
                assert(s@.subrange(start as int, i as int + 1) =~= cur.push(s@[i as int]));
            }
        }
        i = i + 1;
    }
    let ghost prefix = lines.deep_view();
    let ghost cur = s@.subrange(start as int, i as int);
    proof {
        assert(s@.skip(n as int).len() == 0);
    }
    if start < n {
        let w = s.substring_char(start, n).to_owned();
        lines.push(w);
        proof {
            assert(lines.deep_view() =~= prefix.push(cur));
            assert(prefix.push(cur) =~= prefix + seq![cur]);
        }
    } else {
        proof {
            assert(cur.len() == 0);
            assert(prefix + split_lines(s@.skip(n as int), cur) =~= prefix);
        }
    }
    lines
}

/// Wraps `words` greedily into segments of at most `max_len` cells, each
/// word followed by one space.
fn wrap_segments(words: &Vec<String>, max_len: usize) -> (r: Vec<String>)
    requires
        forall|j: int| 0 <= j < words@.len() ==> (#[trigger] words@[j])@.len() < usize::MAX,
    ensures
        r.deep_view() == wrap_words(words.deep_view(), max_len as nat, Seq::empty()),
{
    let mut segs: Vec<String> = Vec::new();
    let mut cur = String::new();
    let mut cur_len: usize = 0;
    let mut i: usize = 0;
    proof {
        assert(words.deep_view().skip(0) =~= words.deep_view());
        assert(segs.deep_view() =~= Seq::<Seq<char>>::empty());
    }
    while i < words.len()
        invariant
            words@.len() == words.deep_view().len(),
            forall|j: int| 0 <= j < words@.len() ==> (#[trigger] words@[j])@.len() < usize::MAX,
            forall|j: int|
                0 <= j < words@.len() ==> (#[trigger] words.deep_view()[j]) == words@[j]@,
            i <= words@.len(),
            cur_len == cur@.len(),
            segs.deep_view() + wrap_words(words.deep_view().skip(i as int), max_len as nat, cur@)
                == wrap_words(words.deep_view(), max_len as nat, Seq::empty()),
        decreases words@.len() - i,
    {
        let ghost prefix = segs.deep_view();
        let ghost gcur = cur@;
        let ghost rest = words.deep_view().skip(i as int);
        proof {
            assert(rest.len() > 0);
            assert(rest[0] == words.deep_view()[i as int]);
            assert(rest.drop_first() =~= words.deep_view().skip(i as int + 1));
        }
        let w = &words[i];
        let wlen = w.unicode_len();
        if (cur_len as u128) + (wlen as u128) + 1 > (max_len as u128) {
            segs.push(cur);
            proof {
                assert(segs.deep_view() =~= prefix.push(gcur));
                assert(prefix.push(gcur) =~= prefix + seq![gcur]);
            }
            cur = w.clone();
            cur.append(" ");
            cur_len = wlen + 1;
            proof {
                reveal_strlit(" ");
                assert(cur@ =~= words.deep_view()[i as int].push(' '));
                assert((prefix + seq![gcur]) + wrap_words(
                    words.deep_view().skip(i as int + 1),
                    max_len as nat,
                    cur@,
                ) =~= prefix + (seq![gcur] + wrap_words(
                    words.deep_view().skip(i as int + 1),
                    max_len as nat,
                    cur@,
                )));
            }
        } else {
            cur.append(w.as_str());
            cur.append(" ");
            cur_len = cur_len + wlen + 1;
            proof {
                reveal_strlit(" ");
                assert(cur@ =~= gcur + words.deep_view()[i as int].push(' '));
            }
        }
        i = i + 1;
    }
    proof {
        assert(words.deep_view().skip(i as int).len() == 0);
    }
    let ghost prefix = segs.deep_view();
    let ghost gcur = cur@;
    segs.push(cur);
    proof {
        assert(segs.deep_view() =~= prefix.push(gcur));
        assert(prefix.push(gcur) =~= prefix + seq![gcur]);
    }
    segs
}

/// The words of `s`, wrapped greedily into segments of at most `max_len`
/// cells; each word carries one trailing space, as the table renderer
/// expects.
pub fn to_segments(s: &str, max_len: usize) -> (r: Vec<String>)
    requires
        s@.len() < usize::MAX,
    ensures
        r.deep_view() == wrap_words(split_ws(s@, Seq::empty()), max_len as nat, Seq::empty()),
{
    let words = split_words(s);
    wrap_segments(&words, max_len)
}

/// Splits `s` into lines, wraps every line on its own into segments of at
/// most `max_len` cells, and concatenates the segments in order.
pub fn format_description(s: &str, max_len: usize) -> (r: Vec<String>)
    requires
        s@.len() < usize::MAX,
    ensures
        r.deep_view() == format_desc_spec(split_lines(s@, Seq::empty()), max_len as nat),
{
    let lines = split_into_lines(s);
    let mut r: Vec<String> = Vec::new();
    let mut i: usize = 0;
    proof {
        assert(lines.deep_view().skip(0) =~= lines.deep_view());
        assert(r.deep_view() =~= Seq::<Seq<char>>::empty());
    }
    while i < lines.len()
        invariant
            s@.len() < usize::MAX,
            lines@.len() == lines.deep_view().len(),
            forall|j: int|
                0 <= j < lines@.len() ==> (#[trigger] lines.deep_view()[j]) == lines@[j]@,
            forall|j: int| 0 <= j < lines@.len() ==> (#[trigger] lines@[j])@.len() <= s@.len(),
            i <= lines@.len(),
            r.deep_view() + format_desc_spec(lines.deep_view().skip(i as int), max_len as nat)
                == format_desc_spec(lines.deep_view(), max_len as nat),
        decreases lines@.len() - i,
    {
        let ghost prefix = r.deep_view();
        let ghost rest = lines.deep_view().skip(i as int);
        proof {
            assert(rest.len() > 0);
            assert(rest[0] == lines.deep_view()[i as int]);
            assert(rest.drop_first() =~= lines.deep_view().skip(i as int + 1));
        }
        let segs = to_segments(lines[i].as_str(), max_len);
        let ghost gsegs = segs.deep_view();
        let mut k: usize = 0;
        while k < segs.len()
            invariant
                k <= segs@.len(),
                gsegs.len() == segs@.len(),
                forall|j: int| 0 <= j < segs@.len() ==> (#[trigger] segs@[j])@ == gsegs[j],
                r.deep_view() =~= prefix + gsegs.subrange(0, k as int),
            decreases segs@.len() - k,
        {
            let ghost rprefix = r.deep_view();
            let item = segs[k].clone();
            r.push(item);
            proof {
                assert(r.deep_view() =~= rprefix.push(gsegs[k as int]));
                assert(gsegs.subrange(0, k as int + 1) =~= gsegs.subrange(0, k as int).push(
                    gsegs[k as int],
                ));
                assert(rprefix.push(gsegs[k as int]) =~= prefix + gsegs.subrange(0, k as int + 1));
            }
            k = k + 1;
        }
        proof {
            assert(gsegs.subrange(0, gsegs.len() as int) =~= gsegs);
            assert(r.deep_view() =~= prefix + gsegs);
            assert((prefix + gsegs) + format_desc_spec(
                lines.deep_view().skip(i as int + 1),
                max_len as nat,
            ) =~= prefix + (gsegs + format_desc_spec(
                lines.deep_view().skip(i as int + 1),
                max_len as nat,
            )));
        }
        i = i + 1;
    }
    proof {
        assert(lines.deep_view().skip(i as int).len() == 0);
    }
    r
}

/// Truncates `text` to `width` cells, then centers what is left in the
/// same width.
pub fn truncate_then_center_align(text: &str, width: usize) -> (r: String)
    requires
        width >= 1,
    ensures
        r@ == center_spec(truncate_spec(text@, width as nat), width as nat),
{
    let truncated = truncate(text, width);
    center_align(truncated.as_str(), width)
}

} // verus!
