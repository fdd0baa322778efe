//! Scan filtering: which files of a folder are images to process.
//!
//! The walk over the file system belongs to the surrounding application;
//! the rule deciding which entries count, and the records the scan hands
//! the rest of the pipeline, are here. A file counts when the extension of
//! its final path component is `jpg`, `jpeg` or `png` in any letter case.

use vstd::prelude::*;

use vstd::string::StrSliceExecFns;

use crate::records::ImageInfo;

verus! {

/// Index of the last occurrence of `c` in `s`, or `-1` when there is none.
pub open spec fn rfind(s: Seq<char>, c: char) -> int
    decreases s.len(),
{
    if s.len() == 0 {
        -1
    } else if s.last() == c {
        s.len() - 1
    } else {
        rfind(s.drop_last(), c)
    }
}

/// `a` equals `b` up to ASCII letter case, for a lowercase letter `b`.
pub open spec fn lower_eq(a: char, b: char) -> bool {
    a == b || (65 <= a as u32 <= 90 && (a as u32) + 32 == b as u32)
}

/// The extension names a supported image format: `jpg`, `jpeg` or `png`,
/// in any letter case.
pub open spec fn supported_ext(ext: Seq<char>) -> bool {
    |||
        (ext.len() == 3 && lower_eq(ext[0], 'j') && lower_eq(ext[1], 'p') && lower_eq(ext[2], 'g'))
    ||| (ext.len() == 4 && lower_eq(ext[0], 'j') && lower_eq(ext[1], 'p') && lower_eq(ext[2], 'e')
        && lower_eq(ext[3], 'g'))
    |||
        (ext.len() == 3 && lower_eq(ext[0], 'p') && lower_eq(ext[1], 'n') && lower_eq(ext[2], 'g'))
}

/// The path names a supported image: its final component (after the last
/// `/`) has an extension (a `.` that is neither its first character nor
/// absent) naming a supported format.
pub open spec fn supported_image_spec(path: Seq<char>) -> bool {
    let name = path.skip(rfind(path, '/') + 1);
    let dot = rfind(name, '.');
    dot > 0 && supported_ext(name.skip(dot + 1))
}

proof fn lemma_rfind_bounds(s: Seq<char>, c: char)
    ensures
        -1 <= rfind(s, c) < s.len(),
    decreases s.len(),
{
    if s.len() > 0 && s.last() != c {
        lemma_rfind_bounds(s.drop_last(), c);
    }
}

/// One past the last occurrence of `c` in `s`, or `0` when there is none.
fn rfind_after(s: &str, c: char) -> (p: usize)
    ensures
        p == rfind(s@, c) + 1,
{
    let n: usize = s.unicode_len();
    let mut i: usize = n;
    proof {
        assert(s@.take(n as int) =~= s@);
    }
    while i > 0
        invariant
            i <= n,
            n == s@.len(),
            rfind(s@, c) == rfind(s@.take(i as int), c),
        decreases i,
    {
        proof {
            let cur = s@.take(i as int);
            assert(cur.last() == s@[i - 1]);
            assert(cur.drop_last() =~= s@.take(i - 1));
        }
        if s.get_char(i - 1) == c {
            return i;
        }
        i = i - 1;
    }
    0
}

/// Whether `a` equals `b` up to ASCII letter case (`b` lowercase).
fn lower_eq_exec(a: char, b: char) -> (r: bool)
    ensures
        r == lower_eq(a, b),
{
    let au: u32 = a as u32;
    let bu: u32 = b as u32;
    a == b || (65 <= au && au <= 90 && au + 32 == bu)
}

/// Whether this path names a supported image file.
pub fn is_supported_image(path: &str) -> (r: bool)
    ensures
        r == supported_image_spec(path@),
{
    let n: usize = path.unicode_len();
    let start: usize = rfind_after(path, '/');
    proof {
        lemma_rfind_bounds(path@, '/');
    }
    let name: &str = path.substring_char(start, n);
    proof {
        assert(name@ =~= path@.skip(rfind(path@, '/') + 1));
    }
    let nn: usize = name.unicode_len();
    let dot_after: usize = rfind_after(name, '.');
    proof {
        lemma_rfind_bounds(name@, '.');
    }
    if dot_after < 2 {
        return false;
    }
    let el: usize = nn - dot_after;
    let ghost ext = name@.skip(rfind(name@, '.') + 1);
    proof {
        assert(ext =~= name@.subrange(dot_after as int, nn as int));
    }
    if el == 3 {
        let c0: char = name.get_char(dot_after);
        let c1: char = name.get_char(dot_after + 1);
        let c2: char = name.get_char(dot_after + 2);
        (lower_eq_exec(c0, 'j') && lower_eq_exec(c1, 'p') && lower_eq_exec(c2, 'g'))
            || (lower_eq_exec(c0, 'p') && lower_eq_exec(c1, 'n') && lower_eq_exec(c2, 'g'))
    } else if el == 4 {
        let c0: char = name.get_char(dot_after);
        let c1: char = name.get_char(dot_after + 1);
        let c2: char = name.get_char(dot_after + 2);
        let c3: char = name.get_char(dot_after + 3);
        lower_eq_exec(c0, 'j') && lower_eq_exec(c1, 'p') && lower_eq_exec(c2, 'e') && lower_eq_exec(
            c3,
            'g',
        )
    } else {
        false
    }
}

/// The supported image paths among `names`, in order.
pub open spec fn supported_of(names: Seq<Seq<char>>) -> Seq<Seq<char>>
    decreases names.len(),
{
    if names.len() == 0 {
        Seq::empty()
    } else {
        let rest = supported_of(names.drop_last());
        if supported_image_spec(names.last()) {
            rest.push(names.last())
        } else {
            rest
        }
    }
}

/// Build the scan's result records: one per supported image path, in the
/// order the walk produced them, each not present and without
/// classification, as the detector and classifier stages expect.
pub fn scan_records(names: &Vec<String>) -> (rows: Vec<ImageInfo>)
    ensures
        rows@.len() == supported_of(names.deep_view()).len(),
        forall|j: int|
            0 <= j < rows@.len() ==> {
                &&& (#[trigger] rows@[j]).file@ == supported_of(names.deep_view())[j]
                &&& !rows@[j].present
                &&& rows@[j].classification is None
            },
{
    let n: usize = names.len();
    let mut rows: Vec<ImageInfo> = Vec::new();
    let mut k: usize = 0;
    while k < n
        invariant
            n == names.len(),
            k <= n,
            rows@.len() == supported_of(names.deep_view().take(k as int)).len(),
            forall|j: int|
                0 <= j < rows@.len() ==> {
                    &&& (#[trigger] rows@[j]).file@ == supported_of(
                        names.deep_view().take(k as int),
                    )[j]
                    &&& !rows@[j].present
                    &&& rows@[j].classification is None
                },
        decreases n - k,
    {
        proof {
            let nv = names.deep_view();
            assert(nv.take(k + 1).drop_last() =~= nv.take(k as int));
            assert(nv.take(k + 1).last() == nv[k as int]);
            assert(names.deep_view()[k as int] == names@[k as int]@);
        }
        if is_supported_image(names[k].as_str()) {
            rows.push(ImageInfo { file: names[k].clone(), present: false, classification: None });
        }
        k = k + 1;
    }
    proof {
        assert(names.deep_view().take(n as int) =~= names.deep_view());
    }
    rows
}

} // verus!
