//! The species label table.
//!
//! A label file holds one species name per line; the line's position is the
//! class index the model predicts. Lines are trimmed, empty lines dropped,
//! and exact duplicates removed while preserving first-seen order, so the
//! index of every kept name is stable. Trimming removes the Unicode
//! white-space characters from both ends, the same set `str::trim`
//! removes.

use vstd::prelude::*;

use vstd::string::StrSliceExecFns;

verus! {

/// The characters trimming removes: the Unicode `White_Space` set, which
/// is what `str::trim` strips.
pub open spec fn is_ws(c: char) -> bool {
    let u = c as u32;
    (9 <= u <= 13) || u == 32 || u == 0x85 || u == 0xA0 || u == 0x1680 || (0x2000 <= u <= 0x200A)
        || u == 0x2028 || u == 0x2029 || u == 0x202F || u == 0x205F || u == 0x3000
}

/// Index of the first occurrence of `c` in `s` at or after `from`, or
/// `s.len()` when there is none.
pub open spec fn find_char(s: Seq<char>, c: char, from: int) -> int
    decreases s.len() - from,
{
    if from < 0 || from >= s.len() {
        s.len() as int
    } else if s[from] == c {
        from
    } else {
        find_char(s, c, from + 1)
    }
}

/// The lines of `s`: maximal newline-free segments, in order. A text
/// without any newline is one line; every newline ends a line.
pub open spec fn lines_of(s: Seq<char>) -> Seq<Seq<char>>
    decreases s.len(),
{
    let i = find_char(s, '\n', 0);
    if 0 <= i < s.len() {
        seq![s.take(i)] + lines_of(s.skip(i + 1))
    } else {
        seq![s]
    }
}

/// `s` without leading whitespace.
pub open spec fn trim_front(s: Seq<char>) -> Seq<char>
    decreases s.len(),
{
    if s.len() > 0 && is_ws(s[0]) {
        trim_front(s.drop_first())
    } else {
        s
    }
}

/// `s` without trailing whitespace.
pub open spec fn trim_back(s: Seq<char>) -> Seq<char>
    decreases s.len(),
{
    if s.len() > 0 && is_ws(s.last()) {
        trim_back(s.drop_last())
    } else {
        s
    }
}

/// `s` without leading and trailing whitespace.
pub open spec fn trimmed(s: Seq<char>) -> Seq<char> {
    trim_back(trim_front(s))
}

/// One fold step of the label cleaning: add the trimmed line `x` to the
/// table `r` unless it is empty or already present.
pub open spec fn clean_step(r: Seq<Seq<char>>, x: Seq<char>) -> Seq<Seq<char>> {
    if trimmed(x).len() == 0 || r.contains(trimmed(x)) {
        r
    } else {
        r.push(trimmed(x))
    }
}

/// Fold the raw lines, in order, into the label table: each line is
/// trimmed, empty lines are dropped, and a name already in the table is not
/// added again, so the first occurrence fixes its index.
pub open spec fn clean_labels(ls: Seq<Seq<char>>) -> Seq<Seq<char>>
    decreases ls.len(),
{
    if ls.len() == 0 {
        Seq::empty()
    } else {
        clean_step(clean_labels(ls.drop_last()), ls.last())
    }
}

/// The label table parsed from a label file's text.
pub open spec fn parse_labels_spec(s: Seq<char>) -> Seq<Seq<char>> {
    clean_labels(lines_of(s))
}

proof fn lemma_find_char_at(s: Seq<char>, c: char, from: int, at: int)
    requires
        0 <= from <= at < s.len(),
        forall|j: int| from <= j < at ==> s[j] != c,
        s[at] == c,
    ensures
        find_char(s, c, from) == at,
    decreases at - from,
{
    if from < at {
        lemma_find_char_at(s, c, from + 1, at);
    }
}

proof fn lemma_find_char_none(s: Seq<char>, c: char, from: int)
    requires
        0 <= from,
        forall|j: int| from <= j < s.len() ==> s[j] != c,
    ensures
        find_char(s, c, from) == s.len(),
    decreases s.len() - from,
{
    if from < s.len() {
        lemma_find_char_none(s, c, from + 1);
    }
}

/// Split a text into its lines.
fn split_lines(raw: &str) -> (lines: Vec<String>)
    ensures
        lines.deep_view() == lines_of(raw@),
{
    let n: usize = raw.unicode_len();
    let mut lines: Vec<String> = Vec::new();
    let mut start: usize = 0;
    let mut i: usize = 0;
    proof {
        assert(raw@.skip(0) =~= raw@);
        assert(lines.deep_view() =~= Seq::<Seq<char>>::empty());
        assert(lines.deep_view() + lines_of(raw@) =~= lines_of(raw@));
    }
    while i < n
        invariant
            n == raw@.len(),
            start <= i <= n,
            forall|j: int| start <= j < i ==> raw@[j] != '\n',
            lines_of(raw@) == lines.deep_view() + lines_of(raw@.skip(start as int)),
        decreases n - i,
    {
        if raw.get_char(i) == '\n' {
            let seg: String = raw.substring_char(start, i).to_owned();
            let ghost pre = lines.deep_view();
            lines.push(seg);
            proof {
                let tail = raw@.skip(start as int);
                assert forall|j: int| 0 <= j < i - start implies tail[j] != '\n' by {
                    assert(tail[j] == raw@[start + j]);
                }
                assert(tail[i - start] == raw@[i as int]);
                lemma_find_char_at(tail, '\n', 0, i - start);
                assert(tail.take(i - start) =~= raw@.subrange(start as int, i as int));
                assert(tail.skip(i - start + 1) =~= raw@.skip(i + 1));
                assert(lines.deep_view() =~= pre.push(seg@));
                assert(lines.deep_view() + lines_of(raw@.skip(i + 1)) =~= pre + (seq![
                    raw@.subrange(start as int, i as int),
                ] + lines_of(raw@.skip(i + 1))));
            }
            start = i + 1;
        }
        i = i + 1;
    }
    let seg: String = raw.substring_char(start, n).to_owned();
    let ghost pre = lines.deep_view();
    lines.push(seg);
    proof {
        let tail = raw@.skip(start as int);
        assert forall|j: int| 0 <= j < tail.len() implies tail[j] != '\n' by {
            assert(tail[j] == raw@[start + j]);
        }
        lemma_find_char_none(tail, '\n', 0);
        assert(lines_of(tail) =~= seq![tail]);
        assert(tail =~= raw@.subrange(start as int, n as int));
        assert(lines.deep_view() =~= pre.push(seg@));
        assert(lines.deep_view() =~= pre + seq![tail]);
    }
    lines
}

/// Trim whitespace from both ends of one line.
fn trim_line(s: &str) -> (t: String)
    ensures
        t@ == trimmed(s@),
{
    let n: usize = s.unicode_len();
    let mut a: usize = 0;
    proof {
        assert(s@.skip(0) =~= s@);
    }
    while a < n && is_ws_exec(s.get_char(a))
        invariant
            n == s@.len(),
            a <= n,
            trim_front(s@) == trim_front(s@.skip(a as int)),
        decreases n - a,
    {
        proof {
            let cur = s@.skip(a as int);
            assert(cur[0] == s@[a as int]);
            assert(cur.drop_first() =~= s@.skip(a + 1));
        }
        a = a + 1;
    }
    proof {
        let cur = s@.skip(a as int);
        if a < n {
            assert(cur[0] == s@[a as int]);
        }
        assert(trim_front(cur) == cur);
    }
    let mut b: usize = n;
    while b > a && is_ws_exec(s.get_char(b - 1))
        invariant
            n == s@.len(),
            a <= b <= n,
            trim_front(s@) == s@.skip(a as int),
            trim_back(s@.skip(a as int)) == trim_back(s@.subrange(a as int, b as int)),
        decreases b,
    {
        proof {
            let cur = s@.subrange(a as int, b as int);
            assert(cur.last() == s@[b - 1]);
            assert(cur.drop_last() =~= s@.subrange(a as int, b - 1));
        }
        b = b - 1;
    }
    proof {
        let cur = s@.subrange(a as int, b as int);
        if b > a {
            assert(cur.last() == s@[b - 1]);
        }
        assert(trim_back(cur) == cur);
        assert(s@.skip(a as int) =~= s@.subrange(a as int, n as int));
    }
    s.substring_char(a, b).to_owned()
}

/// Whether `c` is trimmed away at a line's ends.
fn is_ws_exec(c: char) -> (r: bool)
    ensures
        r == is_ws(c),
{
    let u: u32 = c as u32;
    (9 <= u && u <= 13) || u == 32 || u == 0x85 || u == 0xA0 || u == 0x1680 || (0x2000 <= u && u
        <= 0x200A) || u == 0x2028 || u == 0x2029 || u == 0x202F || u == 0x205F || u == 0x3000
}

/// Whether the table already holds this name.
fn contains_name(names: &Vec<String>, cand: &String) -> (r: bool)
    ensures
        r == names.deep_view().contains(cand@),
{
    let n: usize = names.len();
    let mut i: usize = 0;
    while i < n
        invariant
            n == names.len(),
            i <= n,
            forall|j: int| 0 <= j < i ==> names.deep_view()[j] != cand@,
        decreases n - i,
    {
        proof {
            assert(names.deep_view()[i as int] == names@[i as int]@);
        }
        if names[i].eq(cand) {
            assert(names.deep_view()[i as int] == cand@);
            return true;
        }
        i = i + 1;
    }
    assert(!names.deep_view().contains(cand@));
    false
}

proof fn lemma_clean_labels_invariant(ls: Seq<Seq<char>>)
    ensures
        forall|i: int, j: int|
            0 <= i < j < clean_labels(ls).len() ==> clean_labels(ls)[i] != clean_labels(ls)[j],
        forall|i: int| 0 <= i < clean_labels(ls).len() ==> clean_labels(ls)[i].len() > 0,
    decreases ls.len(),
{
    if ls.len() > 0 {
        lemma_clean_labels_invariant(ls.drop_last());
        let prev = clean_labels(ls.drop_last());
        let t = trimmed(ls.last());
        if t.len() != 0 && !prev.contains(t) {
            assert(forall|k: int| 0 <= k < prev.len() ==> prev[k] != t);
        }
    }
}

/// The parsed label table never holds two identical names, nor an empty
/// one: trimmed duplicates are dropped at parse time, so each name's first
/// occurrence fixes its class index for good.
pub proof fn lemma_label_table_invariant(s: Seq<char>)
    ensures
        forall|i: int, j: int|
            0 <= i < j < parse_labels_spec(s).len() ==> parse_labels_spec(s)[i]
                != parse_labels_spec(s)[j],
        forall|i: int| 0 <= i < parse_labels_spec(s).len() ==> parse_labels_spec(s)[i].len() > 0,
{
    lemma_clean_labels_invariant(lines_of(s));
}

/// Parse a label file's text into the label table: one name per line,
/// trimmed, empty lines dropped, duplicates removed with first-seen order
/// preserved.
pub fn parse_labels(raw: &str) -> (names: Vec<String>)
    ensures
        names.deep_view() == parse_labels_spec(raw@),
{
    let lines: Vec<String> = split_lines(raw);
    let ln: usize = lines.len();
    let mut names: Vec<String> = Vec::new();
    let mut i: usize = 0;
    while i < ln
        invariant
            ln == lines.len(),
            i <= ln,
            names.deep_view() == clean_labels(lines.deep_view().take(i as int)),
        decreases ln - i,
    {
        let t: String = trim_line(lines[i].as_str());
        let ghost pre = names.deep_view();
        if t.unicode_len() > 0 && !contains_name(&names, &t) {
            names.push(t);
            proof {
                assert(names.deep_view() =~= pre.push(trimmed(lines.deep_view()[i as int])));
            }
        }
        proof {
            let lv = lines.deep_view();
            assert(lv.take(i + 1).drop_last() =~= lv.take(i as int));
            assert(lv.take(i + 1).last() == lv[i as int]);
            assert(names.deep_view() == clean_step(pre, lv[i as int]));
        }
        i = i + 1;
    }
    proof {
        assert(lines.deep_view().take(ln as int) =~= lines.deep_view());
    }
    names
}

} // verus!
